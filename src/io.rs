//! Reading project files: a 20-byte header (magic, version, reserved), then tagged blocks up to the end marker.
use vstd::prelude::*;
use vstd::utf8::{
    decode_utf8, encode_scalar, encode_utf8, has_width_1_encoding, has_width_2_encoding,
    has_width_3_encoding, valid_utf8,
};
use crate::codec::{le_u16, le_u32, read_u16, read_u32, v_r, vr_at};
use crate::event::{EventKind, RPxToneEvent, clamp, kind_of_code, sorted, ties, u32_of_bits};
use crate::project::{DEFAULT_TEMPO_BITS, RPxTone, RPxToneUnit};
use crate::woice::{
    RPxToneVoicePCM, RPxToneVoicePCMError, RPxToneVoiceOGGV,
    RPxToneWoice, RPxToneWoiceOGGV, RPxToneWoicePCM, RPxToneWoicePTN, RPxToneWoiceType,
    pcm_format_ok,
};
use crate::ptv::{parse_ptv, ptv_ok, ptv_voices, voice_models};

verus! {

/// First half of the header magic, `PTCOLLAG`, as a little-endian `u64`.
pub const MAGIC_LO: u64 = 0x4741_4c4c_4f43_5450;

/// Second half of the header magic, `E-071119`.
pub const MAGIC_HI: u64 = 0x3931_3131_3730_2d45;

/// Block tags, each the little-endian `u64` of its eight ASCII bytes.
pub const TAG_MASTER: u64 = 0x3556_7265_7473_614d;

pub const TAG_EVENT: u64 = 0x3556_2074_6e65_7645;

pub const TAG_PCM: u64 = 0x204d_4350_6574_616d;

pub const TAG_OGGV: u64 = 0x5647_474f_6574_616d;

pub const TAG_PTV: u64 = 0x2056_5450_6574_616d;

pub const TAG_PTN: u64 = 0x204e_5450_6574_616d;

pub const TAG_NUM_UNIT: u64 = 0x5449_4e55_206d_756e;

pub const TAG_NAME: u64 = 0x454d_414e_7478_6574;

pub const TAG_COMMENT: u64 = 0x4d4d_4f43_7478_6574;

pub const TAG_UNIT: u64 = 0x5449_4e55_6973_7361;

pub const TAG_END: u64 = 0x444e_656e_6f74_7870;

pub const TAG_ANTI_OPER: u64 = 0x5245_504f_6974_6e61;

/// Why a project could not be read.
#[derive(Debug)]
pub enum RPxToneIOError {
    /// The file does not start with the project magic.
    IncorrectHeader,
    /// The bytes end inside the header, a block or a value.
    UnexpectedEnd,
    /// A block's size differs from the one its tag requires; `block` is the tag.
    IncorrectBlockSize { block: u64, expected: u32, actual: u32 },
    /// The project asks not to be loaded.
    AntiOper,
    /// The master block holds a non-positive beat or a negative clock.
    InvalidMaster,
    /// Event clocks run past `u32::MAX`.
    EventClockOverflow,
    /// Reserved fields or flags that must be zero are not.
    ReservedNotZero,
    /// A unit block out of order.
    UnitOutOfOrder,
    /// A synthesised voice with an unknown version, header or wave type.
    InvalidVoice,
    InvalidPCMConfig { bits_per_sample: u8, channels: u8 },
    InvalidOGGVConfig { samples_per_second: u8, channels: u8 },
    /// A name or comment that is not UTF-8.
    InvalidText,
    /// An event names a unit or an instrument that the file does not define.
    UnresolvedReference,
}

impl RPxToneIOError {
    /// Whether the error says the bytes are not a well-formed project.
    pub fn is_format_invalid(&self) -> (r: bool)
        ensures
            r == (self is IncorrectHeader || self is UnexpectedEnd || self is IncorrectBlockSize
                || self is InvalidMaster || self is EventClockOverflow || self is ReservedNotZero
                || self is UnitOutOfOrder || self is InvalidVoice || self is UnresolvedReference),
    {
        match self {
            RPxToneIOError::IncorrectHeader => true,
            RPxToneIOError::UnexpectedEnd => true,
            RPxToneIOError::IncorrectBlockSize { .. } => true,
            RPxToneIOError::InvalidMaster => true,
            RPxToneIOError::EventClockOverflow => true,
            RPxToneIOError::ReservedNotZero => true,
            RPxToneIOError::UnitOutOfOrder => true,
            RPxToneIOError::InvalidVoice => true,
            RPxToneIOError::UnresolvedReference => true,
            _ => false,
        }
    }
}

/// A little-endian `u64` at `pos`.
pub open spec fn le_u64(s: Seq<u8>, pos: int) -> u64 {
    (le_u32(s, pos) as nat + 0x1_0000_0000 * le_u32(s, pos + 4) as nat) as u64
}

/// Reads a little-endian `u64` at `pos`, or `None` when fewer than eight bytes are left.
pub fn read_u64(bytes: &[u8], pos: usize) -> (r: Option<u64>)
    ensures
        r is Some <==> pos + 8 <= bytes@.len(),
        r is Some ==> r->0 == le_u64(bytes@, pos as int),
{
    if pos > bytes.len() || bytes.len() - pos < 8 {
        return None;
    }
    let lo = read_u32(bytes, pos).unwrap();
    let hi = read_u32(bytes, pos + 4).unwrap();
    Some(lo as u64 + 0x1_0000_0000 * hi as u64)
}

/// Whether `s` starts with the project magic.
#[verifier::opaque]
pub open spec fn header_ok(s: Seq<u8>) -> bool {
    s.len() >= 16 && le_u64(s, 0) == MAGIC_LO && le_u64(s, 8) == MAGIC_HI
}

/// A copy of `bytes[from..to]`.
pub fn copy_range(bytes: &[u8], from: usize, to: usize) -> (r: Vec<u8>)
    requires
        from <= to <= bytes@.len(),
    ensures
        r@ == bytes@.subrange(from as int, to as int),
{
    let mut out: Vec<u8> = Vec::new();
    let mut i: usize = from;
    while i < to
        invariant
            from <= i <= to <= bytes@.len(),
            out@ == bytes@.subrange(from as int, i as int),
        decreases to - i,
    {
        out.push(bytes[i]);
        i = i + 1;
        assert(out@ =~= bytes@.subrange(from as int, i as int));
    }
    out
}

/// Index of the first zero byte of `s`, or its length when there is none.
pub open spec fn nul_index(s: Seq<u8>) -> int {
    if exists|k: int| 0 <= k < s.len() && s[k] == 0 {
        choose|k: int| 0 <= k < s.len() && s[k] == 0 && forall|d: int| 0 <= d < k ==> s[d] != 0
    } else {
        s.len() as int
    }
}

/// The bytes before the first zero byte.
pub open spec fn until_nul(s: Seq<u8>) -> Seq<u8> {
    s.take(nul_index(s))
}

/// Relies on `String::from_utf8`: it accepts exactly the valid UTF-8 byte strings and keeps
/// their characters.
#[verifier::external_body]
fn utf8_string(bytes: Vec<u8>) -> (r: Option<String>)
    ensures
        r is Some <==> valid_utf8(bytes@),
        r matches Some(s) ==> s@ == decode_utf8(bytes@),
{
    String::from_utf8(bytes).ok()
}

/// The text of `bytes[from..to]` up to its first zero byte; fails unless that is UTF-8.
pub fn text_from(bytes: &[u8], from: usize, to: usize) -> (r: Result<String, RPxToneIOError>)
    requires
        from <= to <= bytes@.len(),
    ensures
        ({
            let t = until_nul(bytes@.subrange(from as int, to as int));
            &&& r is Ok <==> valid_utf8(t)
            &&& r matches Ok(s) ==> s@ == decode_utf8(t)
            &&& r matches Err(e) ==> e is InvalidText
        }),
{
    let ghost s = bytes@.subrange(from as int, to as int);
    let mut k: usize = from;
    while k < to && bytes[k] != 0
        invariant
            from <= k <= to <= bytes@.len(),
            s == bytes@.subrange(from as int, to as int),
            forall|d: int| 0 <= d < k - from ==> s[d] != 0,
        decreases to - k,
    {
        k = k + 1;
    }
    proof {
        let c = (k - from) as int;
        if k < to {
            assert(s[c] == 0);
            let m = nul_index(s);
            if m < c {
                assert(s[m] != 0);
            }
            if m > c {
                assert(s[c] != 0);
            }
        } else {
            assert(!exists|j: int| 0 <= j < s.len() && s[j] == 0);
        }
    }
    let raw = copy_range(bytes, from, k);
    assert(raw@ =~= until_nul(s));
    match utf8_string(raw) {
        Some(t) => Ok(t),
        None => Err(RPxToneIOError::InvalidText),
    }
}

/// A signed 16-bit number from its bit pattern.
pub open spec fn i16_of(u: u16) -> int {
    if u >= 0x8000 {
        u - 0x1_0000
    } else {
        u as int
    }
}

/// A signed 32-bit number from its bit pattern.
pub open spec fn i32_of(u: u32) -> int {
    if u >= 0x8000_0000 {
        u - 0x1_0000_0000
    } else {
        u as int
    }
}

fn to_i16(u: u16) -> (r: i16)
    ensures
        r == i16_of(u),
{
    if u >= 0x8000 {
        (u as i32 - 0x1_0000) as i16
    } else {
        u as i16
    }
}

fn to_i32(u: u32) -> (r: i32)
    ensures
        r == i32_of(u),
{
    if u >= 0x8000_0000 {
        (u as i64 - 0x1_0000_0000) as i32
    } else {
        u as i32
    }
}

/// The master block: clock resolution, beats per measure, tempo and the repeat and last
/// positions in ticks.
#[derive(Debug, Clone, Copy, PartialEq, Eq, Structural)]
pub struct MasterV5 {
    pub beat_clock: i16,
    pub beat_num: i8,
    pub beat_tempo_bits: u32,
    pub clock_repeat: i32,
    pub clock_last: i32,
}

/// Reads the 15 bytes of a master block at `pos`.
pub fn parse_master(p: &[u8], pos: usize) -> (r: Option<MasterV5>)
    ensures
        r is Some <==> pos + 15 <= p@.len(),
        r matches Some(m) ==> {
            &&& m.beat_clock == i16_of(le_u16(p@, pos as int))
            &&& m.beat_num == (if p@[pos + 2] >= 128 { p@[pos + 2] - 256 } else { p@[pos + 2] as int })
            &&& m.beat_tempo_bits == le_u32(p@, pos + 3)
            &&& m.clock_repeat == i32_of(le_u32(p@, pos + 7))
            &&& m.clock_last == i32_of(le_u32(p@, pos + 11))
        },
{
    if pos > p.len() || p.len() - pos < 15 {
        return None;
    }
    let beat_clock = to_i16(read_u16(p, pos).unwrap());
    let b = p[pos + 2];
    let beat_num: i8 = if b >= 128 {
        (b as i16 - 256) as i8
    } else {
        b as i8
    };
    let beat_tempo_bits = read_u32(p, pos + 3).unwrap();
    let clock_repeat = to_i32(read_u32(p, pos + 7).unwrap());
    let clock_last = to_i32(read_u32(p, pos + 11).unwrap());
    Some(MasterV5 { beat_clock, beat_num, beat_tempo_bits, clock_repeat, clock_last })
}

/// The measure count a master block implies: one past the repeat measure, or the last
/// measure when that is further.
pub open spec fn measures_of(repeat_measure: int, last_measure: int) -> int {
    let n = if repeat_measure >= 1 {
        repeat_measure + 1
    } else {
        1
    };
    if last_measure > n {
        last_measure
    } else {
        n
    }
}

/// Sets the master fields of `project` from `m`: beats, tempo, and repeat and last
/// positions turned into measures. Fails on a non-positive beat or a negative position.
pub fn apply_master(project: &mut RPxTone, m: MasterV5) -> (r: Result<(), RPxToneIOError>)
    ensures
        r is Ok <==> (m.beat_clock > 0 && m.beat_num > 0 && m.clock_repeat >= 0 && m.clock_last >= 0),
        r is Ok ==> final(project).repeat_measure >= 0 && final(project).last_measure >= 0,
        r is Err ==> *final(project) == *old(project),
        r matches Err(e) ==> e is InvalidMaster,
        r is Ok ==> {
            let per = (m.beat_num * m.beat_clock) as int;
            &&& final(project).beat_clock == m.beat_clock
            &&& final(project).beat_num == m.beat_num
            &&& final(project).beat_tempo_bits == m.beat_tempo_bits
            &&& final(project).repeat_measure == m.clock_repeat as int / per
            &&& final(project).last_measure == m.clock_last as int / per
            &&& final(project).num_measures == clamp(
                measures_of(m.clock_repeat as int / per, m.clock_last as int / per),
                1,
                i32::MAX as int,
            )
            &&& final(project).units == old(project).units
            &&& final(project).event_list == old(project).event_list
            &&& final(project).woices == old(project).woices
            &&& final(project).name == old(project).name
            &&& final(project).comment == old(project).comment
        },
{
    if !(m.beat_clock > 0 && m.beat_num > 0 && m.clock_repeat >= 0 && m.clock_last >= 0) {
        return Err(RPxToneIOError::InvalidMaster);
    }
    let bn: i32 = m.beat_num as i32;
    let bc: i32 = m.beat_clock as i32;
    assert(0 < bn * bc <= 127 * 32767) by (nonlinear_arith)
        requires
            0 < bn <= 127,
            0 < bc <= 32767,
    ;
    let per: i32 = bn * bc;
    let repeat_measure: i32 = (m.clock_repeat as u32 / per as u32) as i32;
    let last_measure: i32 = (m.clock_last as u32 / per as u32) as i32;
    let mut num_measures: i64 = 1;
    if repeat_measure as i64 >= num_measures {
        num_measures = repeat_measure as i64 + 1;
    }
    if last_measure as i64 > num_measures {
        num_measures = last_measure as i64;
    }
    if num_measures > i32::MAX as i64 {
        num_measures = i32::MAX as i64;
    }
    project.beat_clock = m.beat_clock as i32;
    project.beat_num = m.beat_num as i32;
    project.beat_tempo_bits = m.beat_tempo_bits;
    project.repeat_measure = repeat_measure;
    project.last_measure = last_measure;
    project.num_measures = num_measures as i32;
    Ok(())
}

/// One stored event at `pos` for a running clock `clock`: the event it adds (if any), the
/// offset after it, and the new clock. `Null` events are skipped and keep the clock;
/// master-level events move the clock but are not kept. `None` when the bytes end inside
/// the event or the clock would pass `u32::MAX`.
#[verifier::opaque]
pub open spec fn event_step(s: Seq<u8>, pos: nat, clock: u32) -> Option<(Option<RPxToneEvent>, nat, u32)> {
    match vr_at(s, pos) {
        None => None,
        Some((delta, p1)) => if p1 + 2 > s.len() {
            None
        } else {
            let unit_no = s[p1 as int];
            let kind = kind_of_code(s[p1 + 1 as int]);
            match vr_at(s, (p1 + 2) as nat) {
                None => None,
                Some((value, p2)) => if kind == EventKind::Null {
                    Some((None, p2, clock))
                } else if clock + delta > u32::MAX {
                    None
                } else {
                    let c = (clock + delta) as u32;
                    Some((Some(RPxToneEvent { clock: c, unit_no, kind, value: i32_of(value) as i32 }), p2, c))
                },
            }
        },
    }
}

/// The first `k` stored events from `pos`: the events kept, the offset after them, and
/// the clock reached.
pub open spec fn event_run(s: Seq<u8>, pos: nat, k: nat) -> Option<(Seq<RPxToneEvent>, nat, u32)>
    decreases k,
{
    if k == 0 {
        Some((Seq::empty(), pos, 0u32))
    } else {
        match event_run(s, pos, (k - 1) as nat) {
            None => None,
            Some((evs, p, c)) => match event_step(s, p, c) {
                None => None,
                Some((oe, p2, c2)) => Some(
                    (
                        match oe {
                            Some(e) => evs.push(e),
                            None => evs,
                        },
                        p2,
                        c2,
                    ),
                ),
            },
        }
    }
}

proof fn lemma_event_run_stays_none(s: Seq<u8>, pos: nat, k: nat, m: nat)
    requires
        k <= m,
        event_run(s, pos, k) is None,
    ensures
        event_run(s, pos, m) is None,
    decreases m - k,
{
    if k < m {
        lemma_event_run_stays_none(s, pos, k, (m - 1) as nat);
    }
}

proof fn lemma_event_step_clock(s: Seq<u8>, pos: nat, clock: u32)
    ensures
        event_step(s, pos, clock) matches Some((oe, _, c2)) ==> c2 >= clock && (oe matches Some(
            e,
        ) ==> e.clock == c2),
{
    reveal(event_step);
}

/// Every event a run keeps lies at or before the clock the run reaches.
proof fn lemma_event_run_clocks(s: Seq<u8>, pos: nat, k: nat)
    ensures
        event_run(s, pos, k) matches Some((evs, _, c)) ==> forall|i: int|
            0 <= i < evs.len() ==> (#[trigger] evs[i]).clock <= c,
    decreases k,
{
    if k > 0 {
        lemma_event_run_clocks(s, pos, (k - 1) as nat);
        match event_run(s, pos, (k - 1) as nat) {
            Some((evs, p, c)) => {
                lemma_event_step_clock(s, p, c);
            },
            None => {},
        }
    }
}

/// Reads the stored event at `at` for running clock `clock`, as `event_step` says.
fn read_event(p: &[u8], at: usize, clock: u32) -> (r: Result<(Option<RPxToneEvent>, usize, u32), RPxToneIOError>)
    ensures
        r is Ok <==> event_step(p@, at as nat, clock) is Some,
        r matches Ok((oe, q, c)) ==> event_step(p@, at as nat, clock) == Some((oe, q as nat, c)),
{
    proof {
        reveal(event_step);
    }
    let n = p.len();
    let (delta, p1) = match v_r(p, at) {
        Some(x) => x,
        None => return Err(RPxToneIOError::UnexpectedEnd),
    };
    proof {
        crate::codec::lemma_vr_at_bound(p@, at as nat);
    }
    if p1 >= n || n - p1 < 2 {
        return Err(RPxToneIOError::UnexpectedEnd);
    }
    let unit_no = p[p1];
    let kind = EventKind::from_u8(p[p1 + 1]);
    let (value, p2) = match v_r(p, p1 + 2) {
        Some(x) => x,
        None => return Err(RPxToneIOError::UnexpectedEnd),
    };
    if kind == EventKind::Null {
        return Ok((None, p2, clock));
    }
    if delta > u32::MAX - clock {
        return Err(RPxToneIOError::EventClockOverflow);
    }
    let c = clock + delta;
    Ok((Some(RPxToneEvent { clock: c, unit_no, kind, value: to_i32(value) }), p2, c))
}

/// Decodes an event block: a `u32` count at `pos`, then that many stored events. Returns
/// the events kept, in stored order, and the clock reached.
pub fn parse_events(p: &[u8], pos: usize) -> (r: Result<(Vec<RPxToneEvent>, u32), RPxToneIOError>)
    ensures
        r is Ok <==> (pos + 4 <= p@.len() && event_run(p@, (pos + 4) as nat, le_u32(p@, pos as int) as nat) is Some),
        r matches Ok((evs, c)) ==> {
            let run = event_run(p@, (pos + 4) as nat, le_u32(p@, pos as int) as nat)->0;
            evs@ == run.0 && c == run.2
        },
        r matches Ok((evs, c)) ==> forall|i: int| 0 <= i < evs@.len() ==> (#[trigger] evs@[i]).clock <= c,
{
    let n = p.len();
    let count = match read_u32(p, pos) {
        Some(v) => v,
        None => return Err(RPxToneIOError::UnexpectedEnd),
    };
    let mut out: Vec<RPxToneEvent> = Vec::new();
    let mut at: usize = pos + 4;
    let mut clock: u32 = 0;
    let mut i: u32 = 0;
    while i < count
        invariant
            n == p@.len(),
            pos + 4 <= p@.len(),
            count == le_u32(p@, pos as int),
            i <= count,
            event_run(p@, (pos + 4) as nat, i as nat) == Some((out@, at as nat, clock)),
        decreases count - i,
    {
        let step = read_event(p, at, clock);
        match step {
            Err(e) => {
                proof {
                    lemma_event_run_stays_none(p@, (pos + 4) as nat, (i + 1) as nat, count as nat);
                }
                return Err(e);
            },
            Ok((oe, q, c)) => {
                match oe {
                    Some(e) => out.push(e),
                    None => {},
                }
                at = q;
                clock = c;
            },
        }
        i = i + 1;
    }
    proof {
        lemma_event_run_clocks(p@, (pos + 4) as nat, count as nat);
    }
    Ok((out, clock))
}

/// The flag bits a PCM or Ogg voice may use: loop, smooth, beat fit.
pub open spec fn voice_flags_ok(flags: u32) -> bool {
    flags < 8
}

/// Whether `s` is a PCM instrument block that reads: a 24-byte header with only the known
/// flags, as much data as it announces, and a supported format.
pub open spec fn pcm_ok(s: Seq<u8>) -> bool {
    let channels = le_u16(s, 8);
    let bits = le_u16(s, 10);
    &&& s.len() >= 24
    &&& 24 + le_u32(s, 20) <= s.len()
    &&& voice_flags_ok(le_u32(s, 4))
    &&& channels <= 255 && bits <= 255
    &&& pcm_format_ok(bits as u8, channels as u8)
}

/// Whether `s` is an Ogg Vorbis instrument block that reads: a 28-byte header with only the
/// known flags and as much data as it announces. (The stream is decoded later, outside the
/// reader.)
pub open spec fn oggv_ok(s: Seq<u8>) -> bool {
    &&& s.len() >= 28
    &&& 28 + le_u32(s, 24) <= s.len()
    &&& voice_flags_ok(le_u32(s, 4))
}

/// Whether `s` is the unit block of unit number `expected`: index, a zero reserved field, and
/// a 16-byte name whose text before its first zero byte is UTF-8.
pub open spec fn unit_ok(s: Seq<u8>, expected: nat) -> bool {
    &&& s.len() >= 20
    &&& le_u16(s, 0) == expected
    &&& le_u16(s, 2) == 0
    &&& valid_utf8(until_nul(s.subrange(4, 20)))
}

/// Whether a master block's beat is positive and its positions are not negative.
pub open spec fn master_ok(s: Seq<u8>) -> bool {
    &&& i16_of(le_u16(s, 0)) > 0
    &&& s[2] > 0 && s[2] < 128
    &&& i32_of(le_u32(s, 7)) >= 0
    &&& i32_of(le_u32(s, 11)) >= 0
}

/// `w` is the PCM instrument of block payload `s`.
pub open spec fn pcm_woice_of(w: &RPxToneWoice, s: Seq<u8>) -> bool {
    let flags = le_u32(s, 4);
    let data_size = le_u32(s, 20);
    w.woice_type matches RPxToneWoiceType::PCM(pcm) && {
        let v = pcm.voice;
        &&& v.wf()
        &&& v.basic_key == le_u16(s, 2) && v.volume == 128 && v.pan == 64
        &&& v.channels == le_u16(s, 8) && v.bits_per_sample == le_u16(s, 10)
        &&& v.samples_per_second == le_u32(s, 12) && v.tuning_bits == le_u32(s, 16)
        &&& v.flag_loop == (flags % 2 == 1) && v.flag_smooth == (flags / 2 % 2 == 1)
        &&& v.flag_beat_fit == (flags / 4 % 2 == 1)
        &&& v.data@ == s.subrange(24, 24 + data_size)
    }
}

/// `w` is the (not yet decoded) Ogg Vorbis instrument of block payload `s`.
pub open spec fn oggv_woice_of(w: &RPxToneWoice, s: Seq<u8>) -> bool {
    let flags = le_u32(s, 4);
    let data_size = le_u32(s, 24);
    w.woice_type matches RPxToneWoiceType::OGGV(o) && {
        let v = o.voice;
        &&& v.basic_key == le_u16(s, 2) && v.volume == 128 && v.pan == 64
        &&& v.tuning_bits == le_u32(s, 8)
        &&& v.channels == le_u32(s, 12) && v.samples_per_second == le_u32(s, 16)
        &&& v.sample_num == le_u32(s, 20) && v.ogg_data@ == s.subrange(28, 28 + data_size)
        &&& v.samples@.len() == 0 && v.ogg_channels == 0 && v.ogg_samples_per_second == 0
        &&& v.flag_loop == (flags % 2 == 1) && v.flag_smooth == (flags / 2 % 2 == 1)
        &&& v.flag_beat_fit == (flags / 4 % 2 == 1)
    }
}

/// `w` is the PTV instrument of block payload `s`.
pub open spec fn ptv_woice_of(w: &RPxToneWoice, s: Seq<u8>) -> bool {
    w.woice_type matches RPxToneWoiceType::PTV(ptv) && voice_models(ptv.voices@) == ptv_voices(s)
}

/// `w` is the instrument that the block with `tag` and payload `s` holds.
pub open spec fn woice_of(w: &RPxToneWoice, tag: u64, s: Seq<u8>) -> bool {
    if tag == TAG_PCM {
        pcm_woice_of(w, s)
    } else if tag == TAG_OGGV {
        oggv_woice_of(w, s)
    } else if tag == TAG_PTV {
        ptv_woice_of(w, s)
    } else {
        w.woice_type matches RPxToneWoiceType::PTN(ptn) && ptn.data@ == s
    }
}

/// Reads a PCM instrument block of `size` bytes at `pos`.
pub fn parse_pcm(p: &[u8], pos: usize, size: usize) -> (r: Result<RPxToneWoice, RPxToneIOError>)
    requires
        pos + size <= p@.len(),
    ensures
        ({
            let s = p@.subrange(pos as int, pos + size);
            let flags = le_u32(s, 4);
            let channels = le_u16(s, 8);
            let bits = le_u16(s, 10);
            let data_size = le_u32(s, 20);
            &&& r is Ok <==> pcm_ok(s)
            &&& r matches Ok(w) ==> pcm_woice_of(&w, s)
        }),
{
    let _len = p.len();
    let ghost s = p@.subrange(pos as int, pos + size);
    if size < 24 {
        return Err(RPxToneIOError::UnexpectedEnd);
    }
    proof {
        assert forall|k: int| 0 <= k < 24 implies s[k] == p@[pos + k] by {}
    }
    let basic_key = read_u16(p, pos + 2).unwrap();
    let flags = read_u32(p, pos + 4).unwrap();
    let channels = read_u16(p, pos + 8).unwrap();
    let bits = read_u16(p, pos + 10).unwrap();
    let sps = read_u32(p, pos + 12).unwrap();
    let tuning_bits = read_u32(p, pos + 16).unwrap();
    let data_size = read_u32(p, pos + 20).unwrap();
    if data_size as usize > size - 24 {
        return Err(RPxToneIOError::UnexpectedEnd);
    }
    if flags >= 8 {
        return Err(RPxToneIOError::ReservedNotZero);
    }
    if channels > 255 || bits > 255 {
        return Err(RPxToneIOError::InvalidPCMConfig { bits_per_sample: bits as u8, channels: channels as u8 });
    }
    let data = copy_range(p, pos + 24, pos + 24 + data_size as usize);
    assert(data@ =~= s.subrange(24, 24 + data_size));
    let voice = RPxToneVoicePCM::new(
        basic_key as i32,
        128,
        64,
        tuning_bits,
        channels as u8,
        sps,
        bits as u8,
        data,
        flags % 2 == 1,
        flags / 2 % 2 == 1,
        flags / 4 % 2 == 1,
    );
    match voice {
        Ok(voice) => Ok(
            RPxToneWoice {
                name: String::new(),
                woice_type: RPxToneWoiceType::PCM(RPxToneWoicePCM { voice }),
            },
        ),
        Err(RPxToneVoicePCMError::InvalidPCMConfig { bits_per_sample, channels }) => Err(
            RPxToneIOError::InvalidPCMConfig { bits_per_sample, channels },
        ),
    }
}

/// Reads an Ogg Vorbis instrument block of `size` bytes at `pos` and decodes its stream.
pub fn parse_oggv(p: &[u8], pos: usize, size: usize) -> (r: Result<RPxToneWoice, RPxToneIOError>)
    requires
        pos + size <= p@.len(),
    ensures
        ({
            let s = p@.subrange(pos as int, pos + size);
            let flags = le_u32(s, 4);
            let data_size = le_u32(s, 24);
            let data = s.subrange(28, 28 + data_size);
            &&& r is Ok <==> oggv_ok(s)
            &&& r matches Ok(w) ==> oggv_woice_of(&w, s)
        }),
{
    let _len = p.len();
    let ghost s = p@.subrange(pos as int, pos + size);
    if size < 28 {
        return Err(RPxToneIOError::UnexpectedEnd);
    }
    proof {
        assert forall|k: int| 0 <= k < 28 implies s[k] == p@[pos + k] by {}
    }
    let basic_key = read_u16(p, pos + 2).unwrap();
    let flags = read_u32(p, pos + 4).unwrap();
    let tuning_bits = read_u32(p, pos + 8).unwrap();
    let channels = read_u32(p, pos + 12).unwrap();
    let sps = read_u32(p, pos + 16).unwrap();
    let sample_num = read_u32(p, pos + 20).unwrap();
    let data_size = read_u32(p, pos + 24).unwrap();
    if data_size as usize > size - 28 {
        return Err(RPxToneIOError::UnexpectedEnd);
    }
    if flags >= 8 {
        return Err(RPxToneIOError::ReservedNotZero);
    }
    let data = copy_range(p, pos + 28, pos + 28 + data_size as usize);
    assert(data@ =~= s.subrange(28, 28 + data_size));
    let voice = RPxToneVoiceOGGV::new(
        basic_key as i32,
        128,
        64,
        tuning_bits,
        channels,
        sps,
        sample_num,
        data,
        flags % 2 == 1,
        flags / 2 % 2 == 1,
        flags / 4 % 2 == 1,
    );
    Ok(RPxToneWoice { name: String::new(), woice_type: RPxToneWoiceType::OGGV(RPxToneWoiceOGGV { voice }) })
}

/// Reads a unit block of `size` bytes at `pos`, which must name unit number `expected`.
pub fn parse_unit(p: &[u8], pos: usize, size: usize, expected: usize) -> (r: Result<RPxToneUnit, RPxToneIOError>)
    requires
        pos + size <= p@.len(),
    ensures
        ({
            let s = p@.subrange(pos as int, pos + size);
            let name = until_nul(s.subrange(4, 20));
            &&& r is Ok <==> unit_ok(s, expected as nat)
            &&& r matches Ok(u) ==> !u.selected && !u.muted && u.name@ == decode_utf8(name)
        }),
{
    let _len = p.len();
    let ghost s = p@.subrange(pos as int, pos + size);
    if size < 20 {
        return Err(RPxToneIOError::UnexpectedEnd);
    }
    proof {
        assert forall|k: int| 0 <= k < 20 implies s[k] == p@[pos + k] by {}
        assert(p@.subrange(pos + 4, pos + 20) =~= s.subrange(4, 20));
    }
    let index = read_u16(p, pos).unwrap();
    if index as usize != expected {
        return Err(RPxToneIOError::UnitOutOfOrder);
    }
    let rrr = read_u16(p, pos + 2).unwrap();
    if rrr != 0 {
        return Err(RPxToneIOError::ReservedNotZero);
    }
    let name = text_from(p, pos + 4, pos + 20)?;
    Ok(RPxToneUnit { selected: false, muted: false, name })
}

/// Every event names a unit of the project, and every instrument choice an instrument of
/// it.
pub open spec fn references_resolved(p: &RPxTone) -> bool {
    forall|i: int|
        0 <= i < p.event_list.events@.len() ==> {
            let e = #[trigger] p.event_list.events@[i];
            &&& e.kind.is_unit_kind_spec() ==> e.unit_no < p.units@.len()
            &&& e.kind == EventKind::VoiceNo ==> 0 <= e.value < p.woices@.len()
        }
}

fn check_references(p: &RPxTone) -> (r: bool)
    ensures
        r == references_resolved(p),
{
    let n = p.event_list.events.len();
    let mut i: usize = 0;
    while i < n
        invariant
            n == p.event_list.events@.len(),
            i <= n,
            forall|j: int|
                0 <= j < i ==> {
                    let e = #[trigger] p.event_list.events@[j];
                    &&& e.kind.is_unit_kind_spec() ==> e.unit_no < p.units@.len()
                    &&& e.kind == EventKind::VoiceNo ==> 0 <= e.value < p.woices@.len()
                },
        decreases n - i,
    {
        let e = &p.event_list.events[i];
        if e.kind.is_unit_kind() && e.unit_no as usize >= p.units.len() {
            return false;
        }
        if e.kind == EventKind::VoiceNo && (e.value < 0 || e.value as usize >= p.woices.len()) {
            return false;
        }
        i = i + 1;
    }
    true
}


proof fn lemma_encode_scalar_no_zero(x: u32)
    requires
        x != 0,
    ensures
        forall|k: int| 0 <= k < encode_scalar(x).len() ==> encode_scalar(x)[k] != 0,
{
    assert forall|y: u8| (0xC0u8 | y) != 0 && (0xE0u8 | y) != 0 && (0xF0u8 | y) != 0 && (0x80u8 | y)
        != 0 by {
        assert((0xC0u8 | y) != 0 && (0xE0u8 | y) != 0 && (0xF0u8 | y) != 0 && (0x80u8 | y) != 0)
            by (bit_vector);
    }
    if has_width_1_encoding(x) {
        assert((x & 0x7F) == x) by (bit_vector)
            requires
                x <= 0x7F,
        ;
    }
}

proof fn lemma_encode_utf8_no_zero(chars: Seq<char>)
    requires
        forall|i: int| 0 <= i < chars.len() ==> chars[i] != '\0',
    ensures
        forall|k: int| 0 <= k < encode_utf8(chars).len() ==> encode_utf8(chars)[k] != 0,
    decreases chars.len(),
{
    if chars.len() > 0 {
        let rest = chars.drop_first();
        lemma_encode_utf8_no_zero(rest);
        let c = chars[0] as u32;
        vstd::utf8::char_is_scalar(chars[0]);
        if c == 0 {
            vstd::utf8::char_u32_cast(chars[0], 0);
            assert(('\0' as u32) == 0);
            vstd::utf8::char_u32_cast('\0', 0);
            assert(chars[0] == '\0');
        }
        assert(c != 0);
        lemma_encode_scalar_no_zero(c);
        let e = encode_utf8(chars);
        assert(e == encode_scalar(c) + encode_utf8(rest));
        assert forall|k: int| 0 <= k < e.len() implies e[k] != 0 by {
            if k < encode_scalar(c).len() {
                assert(e[k] == encode_scalar(c)[k]);
            } else {
                assert(e[k] == encode_utf8(rest)[k - encode_scalar(c).len()]);
            }
        }
    }
}

/// A name or comment without NUL characters, written as the bytes of its text block, reads
/// back as itself.
pub proof fn lemma_text_block_round_trip(text: Seq<char>, tag: u64, st: ReadState)
    requires
        tag == TAG_NAME || tag == TAG_COMMENT,
        forall|i: int| 0 <= i < text.len() ==> text[i] != '\0',
    ensures
        block_ok(encode_utf8(text), tag, st.units),
        tag == TAG_NAME ==> next_state(st, encode_utf8(text), tag).name == text,
        tag == TAG_COMMENT ==> next_state(st, encode_utf8(text), tag).comment == text,
{
    let e = encode_utf8(text);
    lemma_encode_utf8_no_zero(text);
    assert(!exists|k: int| 0 <= k < e.len() && e[k] == 0);
    assert(until_nul(e) =~= e);
    vstd::utf8::encode_utf8_valid_utf8(text);
    vstd::utf8::encode_utf8_decode_utf8(text);
}

/// The state after master-level event `e`; other events change nothing. A beat clock (1 to
/// 32767) or beat count (1 to 127) out of range is ignored; the tempo takes the value's bit
/// pattern; repeat and last positions become measures (at most `i32::MAX`) and set the
/// measure count as the master block does.
pub open spec fn master_event_state(st: ReadState, e: RPxToneEvent) -> ReadState {
    let per = st.beat_num * st.beat_clock;
    let at = clamp(e.clock as int / per, 0, i32::MAX as int);
    if e.kind == EventKind::BeatClock {
        if 0 < e.value <= 32767 {
            ReadState { beat_clock: e.value as int, ..st }
        } else {
            st
        }
    } else if e.kind == EventKind::BeatNum {
        if 0 < e.value <= 127 {
            ReadState { beat_num: e.value as int, ..st }
        } else {
            st
        }
    } else if e.kind == EventKind::BeatTempo {
        ReadState { beat_tempo_bits: u32_of_bits(e.value), ..st }
    } else if e.kind == EventKind::Repeat {
        ReadState {
            repeat_measure: at,
            num_measures: clamp(measures_of(at, st.last_measure), 1, i32::MAX as int),
            ..st
        }
    } else if e.kind == EventKind::Last {
        ReadState {
            last_measure: at,
            num_measures: clamp(measures_of(st.repeat_measure, at), 1, i32::MAX as int),
            ..st
        }
    } else {
        st
    }
}

/// The state after the master-level events among `evs`, in order.
pub open spec fn master_events_state(st: ReadState, evs: Seq<RPxToneEvent>) -> ReadState
    decreases evs.len(),
{
    if evs.len() == 0 {
        st
    } else {
        master_event_state(master_events_state(st, evs.drop_last()), evs.last())
    }
}

/// Master-level events change only the master fields.
pub proof fn lemma_master_events_keep(st: ReadState, evs: Seq<RPxToneEvent>)
    ensures
        master_events_state(st, evs).events == st.events,
        master_events_state(st, evs).units == st.units,
        master_events_state(st, evs).woices == st.woices,
        master_events_state(st, evs).last_clock == st.last_clock,
    decreases evs.len(),
{
    if evs.len() > 0 {
        lemma_master_events_keep(st, evs.drop_last());
    }
}

/// Applies master-level event `e` to the project's master fields, as `master_event_state`
/// says.
fn apply_master_event(
    project: &mut RPxTone,
    e: &RPxToneEvent,
    evs: Ghost<Seq<RPxToneEvent>>,
    lc: Ghost<u32>,
    wb: Ghost<Seq<(u64, Seq<u8>)>>,
)
    requires
        old(project).beat_num > 0,
        old(project).beat_clock > 0,
        old(project).beat_num <= 127,
        old(project).beat_clock <= 32767,
        old(project).repeat_measure >= 0,
        old(project).last_measure >= 0,
    ensures
        final(project).beat_num > 0,
        final(project).beat_clock > 0,
        final(project).beat_num <= 127,
        final(project).beat_clock <= 32767,
        final(project).repeat_measure >= 0,
        final(project).last_measure >= 0,
        final(project).num_measures >= 1 || final(project).num_measures == old(project).num_measures,
        project_state(final(project), evs@, lc@, wb@) == master_event_state(
            project_state(old(project), evs@, lc@, wb@),
            *e,
        ),
        final(project).woices == old(project).woices,
        final(project).units == old(project).units,
        final(project).event_list == old(project).event_list,
{
    let bn: u64 = project.beat_num as u64;
    let bc: u64 = project.beat_clock as u64;
    assert(0 < bn * bc <= 127 * 32767) by (nonlinear_arith)
        requires
            0 < bn <= 127,
            0 < bc <= 32767,
    ;
    let per: u64 = bn * bc;
    let q: u64 = e.clock as u64 / per;
    let at: i32 = if q > i32::MAX as u64 {
        i32::MAX
    } else {
        q as i32
    };
    if e.kind == EventKind::BeatClock {
        if 0 < e.value && e.value <= 32767 {
            project.beat_clock = e.value;
        }
    } else if e.kind == EventKind::BeatNum {
        if 0 < e.value && e.value <= 127 {
            project.beat_num = e.value;
        }
    } else if e.kind == EventKind::BeatTempo {
        project.beat_tempo_bits = crate::writer::to_bits_u32(e.value);
    } else if e.kind == EventKind::Repeat {
        project.repeat_measure = at;
        project.num_measures = measures_clamped(at, project.last_measure);
    } else if e.kind == EventKind::Last {
        project.last_measure = at;
        project.num_measures = measures_clamped(project.repeat_measure, at);
    }
}

fn measures_clamped(repeat: i32, last: i32) -> (r: i32)
    requires
        repeat >= 0,
        last >= 0,
    ensures
        r == clamp(measures_of(repeat as int, last as int), 1, i32::MAX as int),
{
    let mut n: i64 = 1;
    if repeat as i64 >= n {
        n = repeat as i64 + 1;
    }
    if last as i64 > n {
        n = last as i64;
    }
    if n > i32::MAX as i64 {
        n = i32::MAX as i64;
    }
    n as i32
}

/// Whether a tag names an instrument block.
pub open spec fn is_woice_tag(tag: u64) -> bool {
    tag == TAG_PCM || tag == TAG_OGGV || tag == TAG_PTV || tag == TAG_PTN
}

/// Whether the block with `tag` whose payload is `b` reads, after `units` unit blocks.
/// Unknown tags are skipped and always read.
pub open spec fn block_ok(b: Seq<u8>, tag: u64, units: nat) -> bool {
    if tag == TAG_ANTI_OPER {
        false
    } else if tag == TAG_MASTER {
        b.len() == 15 && master_ok(b)
    } else if tag == TAG_EVENT {
        b.len() >= 4 && event_run(b, 4, le_u32(b, 0) as nat) is Some
    } else if tag == TAG_PCM {
        pcm_ok(b)
    } else if tag == TAG_OGGV {
        oggv_ok(b)
    } else if tag == TAG_PTV {
        ptv_ok(b)
    } else if tag == TAG_NUM_UNIT {
        b.len() == 4
    } else if tag == TAG_NAME || tag == TAG_COMMENT {
        valid_utf8(until_nul(b))
    } else if tag == TAG_UNIT {
        unit_ok(b, units)
    } else {
        true
    }
}

/// The clock an event block's events reach.
pub open spec fn block_clock(b: Seq<u8>) -> nat {
    match event_run(b, 4, le_u32(b, 0) as nat) {
        Some(run) => run.2 as nat,
        None => 0,
    }
}

/// The events an event block adds.
pub open spec fn block_events(b: Seq<u8>, tag: u64) -> Seq<RPxToneEvent> {
    if tag == TAG_EVENT {
        match event_run(b, 4, le_u32(b, 0) as nat) {
            Some(run) => run.0,
            None => Seq::empty(),
        }
    } else {
        Seq::empty()
    }
}

/// What the blocks read so far have set: unit and instrument counts, the events gathered
/// (in file order), the texts, and the master fields.
pub struct ReadState {
    pub units: nat,
    /// The names of the units read so far, in order.
    pub unit_names: Seq<Seq<char>>,
    pub woices: nat,
    /// The tag and payload of each instrument block read so far, in order.
    pub woice_blocks: Seq<(u64, Seq<u8>)>,
    pub events: Seq<RPxToneEvent>,
    pub name: Seq<char>,
    pub comment: Seq<char>,
    pub beat_clock: int,
    pub beat_num: int,
    pub beat_tempo_bits: u32,
    pub repeat_measure: int,
    pub last_measure: int,
    pub num_measures: int,
    /// The clock the event blocks reached, the largest over the blocks.
    pub last_clock: nat,
}

/// How a walk over the blocks ends.
pub enum WalkEnd {
    /// At the end marker, in this state.
    Done(ReadState),
    /// The bytes end inside a block's frame or before the end marker.
    Truncated,
    /// An antiOPER block.
    Rejected,
    /// A block that does not read.
    Refused,
}

/// The state before any block: an empty project.
pub open spec fn initial_state() -> ReadState {
    ReadState {
        units: 0,
        unit_names: Seq::empty(),
        woices: 0,
        woice_blocks: Seq::empty(),
        events: Seq::empty(),
        name: Seq::empty(),
        comment: Seq::empty(),
        beat_clock: 480,
        beat_num: 4,
        beat_tempo_bits: DEFAULT_TEMPO_BITS,
        repeat_measure: 0,
        last_measure: 0,
        num_measures: 1,
        last_clock: 0,
    }
}

/// The state of a project being read, with the events gathered so far.
pub open spec fn project_state(
    p: &RPxTone,
    events: Seq<RPxToneEvent>,
    last_clock: u32,
    woice_blocks: Seq<(u64, Seq<u8>)>,
) -> ReadState {
    ReadState {
        units: p.units@.len(),
        unit_names: Seq::new(p.units@.len(), |i: int| p.units@[i].name@),
        woices: p.woices@.len(),
        woice_blocks,
        events,
        name: p.name@,
        comment: p.comment@,
        beat_clock: p.beat_clock as int,
        beat_num: p.beat_num as int,
        beat_tempo_bits: p.beat_tempo_bits,
        repeat_measure: p.repeat_measure as int,
        last_measure: p.last_measure as int,
        num_measures: p.num_measures as int,
        last_clock: last_clock as nat,
    }
}

/// The state after a block with `tag` and payload `b` that reads.
pub open spec fn next_state(st: ReadState, b: Seq<u8>, tag: u64) -> ReadState {
    if tag == TAG_MASTER {
        let beat_clock = i16_of(le_u16(b, 0));
        let beat_num = if b[2] >= 128 { b[2] - 256 } else { b[2] as int };
        let per = beat_num * beat_clock;
        let repeat = i32_of(le_u32(b, 7)) / per;
        let last = i32_of(le_u32(b, 11)) / per;
        ReadState {
            beat_clock,
            beat_num,
            beat_tempo_bits: le_u32(b, 3),
            repeat_measure: repeat,
            last_measure: last,
            num_measures: clamp(measures_of(repeat, last), 1, i32::MAX as int),
            ..st
        }
    } else if tag == TAG_EVENT {
        let reached = block_clock(b);
        master_events_state(
            ReadState {
                events: st.events + block_events(b, tag),
                last_clock: if reached > st.last_clock { reached } else { st.last_clock },
                ..st
            },
            block_events(b, tag),
        )
    } else if is_woice_tag(tag) {
        ReadState { woices: st.woices + 1, woice_blocks: st.woice_blocks.push((tag, b)), ..st }
    } else if tag == TAG_UNIT {
        ReadState {
            units: st.units + 1,
            unit_names: st.unit_names.push(decode_utf8(until_nul(b.subrange(4, 20)))),
            ..st
        }
    } else if tag == TAG_NAME {
        ReadState { name: decode_utf8(until_nul(b)), ..st }
    } else if tag == TAG_COMMENT {
        ReadState { comment: decode_utf8(until_nul(b)), ..st }
    } else {
        st
    }
}

/// Walks the blocks from `pos` up to the end marker from state `st`.
#[verifier::opaque]
pub open spec fn walk(s: Seq<u8>, pos: nat, st: ReadState) -> WalkEnd
    decreases s.len() - pos,
{
    if pos + 12 > s.len() {
        WalkEnd::Truncated
    } else {
        let tag = le_u64(s, pos as int);
        let start = pos + 12;
        let end = start + le_u32(s, pos + 8int);
        if end > s.len() {
            WalkEnd::Truncated
        } else if tag == TAG_END {
            WalkEnd::Done(st)
        } else if tag == TAG_ANTI_OPER {
            WalkEnd::Rejected
        } else {
            let b = s.subrange(start as int, end as int);
            if !block_ok(b, tag, st.units) {
                WalkEnd::Refused
            } else {
                walk(s, end as nat, next_state(st, b, tag))
            }
        }
    }
}

/// Every event names one of `units` units, and every instrument choice one of `woices`
/// instruments.
pub open spec fn refs_ok(evs: Seq<RPxToneEvent>, units: nat, woices: nat) -> bool {
    forall|i: int|
        0 <= i < evs.len() ==> {
            let e = #[trigger] evs[i];
            &&& e.kind.is_unit_kind_spec() ==> e.unit_no < units
            &&& e.kind == EventKind::VoiceNo ==> 0 <= e.value < woices
        }
}

/// Whether `s` is a project file that reads: the header, blocks that read up to the end
/// marker, and events that name only units and instruments the file defines.
pub open spec fn file_ok(s: Seq<u8>) -> bool {
    &&& header_ok(s)
    &&& s.len() >= 20
    &&& walk(s, 20, initial_state()) matches WalkEnd::Done(st) && refs_ok(st.events, st.units, st.woices)
}

/// The part of a block's work that changes the project: the master fields, events gathered
/// for sorting, instruments, texts and units. Unknown tags are skipped.
fn apply_block(
    project: &mut RPxTone,
    events: &mut Vec<RPxToneEvent>,
    last_clock: &mut u32,
    bytes: &[u8],
    tag: u64,
    start: usize,
    size: usize,
    blocks: Ghost<Seq<(u64, Seq<u8>)>>,
) -> (r: Result<(), RPxToneIOError>)
    requires
        start + size <= bytes@.len(),
        size <= u32::MAX,
        tag != TAG_END,
        forall|i: int| 0 <= i < old(events)@.len() ==> (#[trigger] old(events)@[i]).clock <= *old(last_clock),
        old(project).beat_num > 0,
        old(project).beat_clock > 0,
        old(project).beat_num <= 127,
        old(project).beat_clock <= 32767,
        old(project).num_measures >= 1,
        old(project).repeat_measure >= 0,
        old(project).last_measure >= 0,
    ensures
        final(project).beat_num > 0,
        final(project).beat_clock > 0,
        final(project).beat_num <= 127,
        final(project).beat_clock <= 32767,
        final(project).num_measures >= 1,
        final(project).repeat_measure >= 0,
        final(project).last_measure >= 0,
        forall|i: int| 0 <= i < final(events)@.len() ==> (#[trigger] final(events)@[i]).clock <= *final(last_clock),
        ({
            let b = bytes@.subrange(start as int, start + size);
            &&& r is Ok <==> block_ok(b, tag, old(project).units@.len())
            &&& tag == TAG_ANTI_OPER ==> (r matches Err(RPxToneIOError::AntiOper))
            &&& r is Ok ==> project_state(
                final(project),
                final(events)@,
                *final(last_clock),
                if is_woice_tag(tag) { blocks@.push((tag, b)) } else { blocks@ },
            ) == next_state(project_state(old(project), old(events)@, *old(last_clock), blocks@), b, tag)
            &&& r is Ok && is_woice_tag(tag) ==> final(project).woices@.len() == old(project).woices@.len() + 1
                && final(project).woices@.take(old(project).woices@.len() as int) == old(project).woices@
                && woice_of(&final(project).woices@.last(), tag, b)
            &&& r is Ok && !is_woice_tag(tag) ==> final(project).woices@ == old(project).woices@
        }),
{
    let _len = bytes.len();
    let end = start + size;
    let ghost b = bytes@.subrange(start as int, start + size);
    if tag == TAG_ANTI_OPER {
        return Err(RPxToneIOError::AntiOper);
    } else if tag == TAG_MASTER {
        if (size as u32) != 15 {
            return Err(RPxToneIOError::IncorrectBlockSize { block: tag, expected: 15, actual: (size as u32) });
        }
        let m = parse_master(bytes, start).unwrap();
        proof {
            assert forall|k: int| 0 <= k < 15 implies b[k] == bytes@[start + k] by {}
            assert(le_u16(b, 0) == le_u16(bytes@, start as int));
            assert(le_u32(b, 7) == le_u32(bytes@, start + 7));
            assert(le_u32(b, 11) == le_u32(bytes@, start + 11));
        }
        apply_master(project, m)?;
    } else if tag == TAG_EVENT {
        let block = copy_range(bytes, start, end);
        let (mut evs, c) = parse_events(block.as_slice(), 0)?;
        let ghost before = events@;
        let ghost added = evs@;
        let ghost fin_events = events@ + evs@;
        let ghost fin_lc: u32 = if c > *last_clock { c } else { *last_clock };
        let ghost start_project = *project;
        let mut k: usize = 0;
        proof {
            assert(evs@.take(0) =~= Seq::<RPxToneEvent>::empty());
        }
        while k < evs.len()
            invariant
                k <= evs@.len(),
                evs@ == added,
                project.beat_num > 0,
                project.beat_clock > 0,
                project.beat_num <= 127,
                project.beat_clock <= 32767,
                project.repeat_measure >= 0,
                project.last_measure >= 0,
                project.num_measures >= 1,
                project.woices == start_project.woices,
                project.units == start_project.units,
                project.event_list == start_project.event_list,
                project_state(project, fin_events, fin_lc, blocks@) == master_events_state(
                    project_state(&start_project, fin_events, fin_lc, blocks@),
                    added.take(k as int),
                ),
            decreases evs@.len() - k,
        {
            apply_master_event(project, &evs[k], Ghost(fin_events), Ghost(fin_lc), Ghost(blocks@));
            proof {
                assert(added.take(k + 1).drop_last() =~= added.take(k as int));
            }
            k = k + 1;
        }
        proof {
            assert(added.take(added.len() as int) =~= added);
            let st0 = project_state(old(project), old(events)@, *old(last_clock), blocks@);
            assert(block_events(b, tag) == added);
            assert(block_clock(b) == c as nat);
            assert(project_state(&start_project, fin_events, fin_lc, blocks@) =~= (ReadState {
                events: st0.events + block_events(b, tag),
                last_clock: if block_clock(b) > st0.last_clock { block_clock(b) } else { st0.last_clock },
                ..st0
            }));
        }
        events.append(&mut evs);
        if c > *last_clock {
            *last_clock = c;
        }
        proof {
            let st0 = project_state(old(project), old(events)@, *old(last_clock), blocks@);
            assert(events@ == fin_events);
            assert(*last_clock == fin_lc);
            assert(project_state(&start_project, fin_events, fin_lc, blocks@) == (ReadState {
                events: st0.events + block_events(b, tag),
                last_clock: if block_clock(b) > st0.last_clock { block_clock(b) } else { st0.last_clock },
                ..st0
            }));
            assert(project_state(project, events@, *last_clock, blocks@) == next_state(st0, b, tag));
        }
        proof {
            assert forall|i: int| 0 <= i < events@.len() implies (#[trigger] events@[i]).clock <= *last_clock by {
                if i < before.len() {
                    assert(events@[i] == before[i]);
                } else {
                    assert(events@[i] == added[i - before.len()]);
                }
            }
        }
    } else if tag == TAG_PCM {
        let w = parse_pcm(bytes, start, size)?;
        project.woices.push(w);
    } else if tag == TAG_OGGV {
        let w = parse_oggv(bytes, start, size)?;
        project.woices.push(w);
    } else if tag == TAG_PTV {
        let w = parse_ptv(bytes, start, size)?;
        project.woices.push(w);
    } else if tag == TAG_PTN {
        let data = copy_range(bytes, start, end);
        project.woices.push(
            RPxToneWoice { name: String::new(), woice_type: RPxToneWoiceType::PTN(RPxToneWoicePTN { data }) },
        );
    } else if tag == TAG_NUM_UNIT {
        if (size as u32) != 4 {
            return Err(RPxToneIOError::IncorrectBlockSize { block: tag, expected: 4, actual: (size as u32) });
        }
    } else if tag == TAG_NAME {
        project.name = text_from(bytes, start, end)?;
    } else if tag == TAG_COMMENT {
        project.comment = text_from(bytes, start, end)?;
    } else if tag == TAG_UNIT {
        let u = parse_unit(bytes, start, size, project.units.len())?;
        let ghost before = project.units@;
        project.units.push(u);
        proof {
            assert(Seq::new(project.units@.len(), |i: int| project.units@[i].name@) =~= Seq::new(
                before.len(),
                |i: int| before[i].name@,
            ).push(decode_utf8(until_nul(b.subrange(4, 20)))));
        }
    }
    proof {
        if tag != TAG_EVENT {
            assert(block_events(b, tag) == Seq::<RPxToneEvent>::empty());
            assert(old(events)@ + Seq::<RPxToneEvent>::empty() =~= old(events)@);
        }
        if tag != TAG_EVENT {
            assert(project_state(
                project,
                events@,
                *last_clock,
                if is_woice_tag(tag) { blocks@.push((tag, b)) } else { blocks@ },
            ) =~= next_state(project_state(old(project), old(events)@, *old(last_clock), blocks@), b, tag));
        }
        if is_woice_tag(tag) {
            assert(project.woices@.take(old(project).woices@.len() as int) =~= old(project).woices@);
        }
    }
    Ok(())
}

proof fn lemma_walk_step(s: Seq<u8>, pos: nat, st: ReadState)
    ensures
        walk(s, pos, st) == ({
    if pos + 12 > s.len() {
                WalkEnd::Truncated
            } else {
                let tag = le_u64(s, pos as int);
                let start = pos + 12;
                let end = start + le_u32(s, pos + 8int);
                if end > s.len() {
                    WalkEnd::Truncated
                } else if tag == TAG_END {
                    WalkEnd::Done(st)
                } else if tag == TAG_ANTI_OPER {
                    WalkEnd::Rejected
                } else {
                    let b = s.subrange(start as int, end as int);
                    if !block_ok(b, tag, st.units) {
                        WalkEnd::Refused
                    } else {
                        walk(s, end as nat, next_state(st, b, tag))
                    }
                }
            }
        }),
{
    reveal(walk);
}

/// Events with the same multiset name the same units and instruments.
proof fn lemma_refs_ok_multiset(a: Seq<RPxToneEvent>, b: Seq<RPxToneEvent>, units: nat, woices: nat)
    requires
        a.to_multiset() == b.to_multiset(),
    ensures
        refs_ok(a, units, woices) == refs_ok(b, units, woices),
{
    broadcast use vstd::seq_lib::group_to_multiset_ensures;
    if refs_ok(a, units, woices) {
        assert forall|i: int| 0 <= i < b.len() implies {
            let e = #[trigger] b[i];
            &&& e.kind.is_unit_kind_spec() ==> e.unit_no < units
            &&& e.kind == EventKind::VoiceNo ==> 0 <= e.value < woices
        } by {
            assert(b.contains(b[i]));
            vstd::seq_lib::to_multiset_contains(b, b[i]);
            vstd::seq_lib::to_multiset_contains(a, b[i]);
            assert(a.contains(b[i]));
            let j = choose|j: int| 0 <= j < a.len() && a[j] == b[i];
            assert(a[j] == b[i]);
        }
    }
    if refs_ok(b, units, woices) {
        assert forall|i: int| 0 <= i < a.len() implies {
            let e = #[trigger] a[i];
            &&& e.kind.is_unit_kind_spec() ==> e.unit_no < units
            &&& e.kind == EventKind::VoiceNo ==> 0 <= e.value < woices
        } by {
            assert(a.contains(a[i]));
            vstd::seq_lib::to_multiset_contains(a, a[i]);
            vstd::seq_lib::to_multiset_contains(b, a[i]);
            assert(b.contains(a[i]));
            let j = choose|j: int| 0 <= j < b.len() && b[j] == a[i];
            assert(b[j] == a[i]);
        }
    }
}

/// The measure count raised, if need be, to the measures (of `per` ticks) that reach clock
/// `last`, rounded up and at most `i32::MAX`.
pub open spec fn extended_measures(num: int, last: nat, per: int) -> int {
    let needed = (last as int) / per + if (last as int) % per == 0 { 0int } else { 1int };
    if needed > num {
        if needed <= i32::MAX { needed } else { i32::MAX as int }
    } else {
        num
    }
}

/// `a * b * c`.
pub open spec fn m_times(a: int, b: int, c: int) -> int {
    a * b * c
}

/// Every event lies within the measures, unless the measure count is at its largest.
pub open spec fn measures_cover_or_saturate(p: &RPxTone) -> bool {
    forall|i: int|
        0 <= i < p.event_list.events@.len() ==> (#[trigger] p.event_list.events@[i]).clock
            <= m_times(p.num_measures as int, p.beat_num as int, p.beat_clock as int)
            || p.num_measures == i32::MAX
}

proof fn lemma_clocks_multiset(a: Seq<RPxToneEvent>, b: Seq<RPxToneEvent>, bound: u32)
    requires
        a.to_multiset() == b.to_multiset(),
        forall|i: int| 0 <= i < b.len() ==> (#[trigger] b[i]).clock <= bound,
    ensures
        forall|i: int| 0 <= i < a.len() ==> (#[trigger] a[i]).clock <= bound,
{
    assert forall|i: int| 0 <= i < a.len() implies (#[trigger] a[i]).clock <= bound by {
        assert(a.contains(a[i]));
        vstd::seq_lib::to_multiset_contains(a, a[i]);
        vstd::seq_lib::to_multiset_contains(b, a[i]);
        assert(b.contains(a[i]));
        let j = choose|j: int| 0 <= j < b.len() && b[j] == a[i];
        assert(b[j] == a[i]);
    }
}

/// Puts the gathered events in play order, checks every reference, and extends the measure
/// count to cover the last event.
fn finish_project(project: RPxTone, all_events: Vec<RPxToneEvent>, last_clock: u32) -> (r: Result<RPxTone, RPxToneIOError>)
    requires
        forall|i: int| 0 <= i < all_events@.len() ==> (#[trigger] all_events@[i]).clock <= last_clock,
        project.beat_num > 0,
        project.beat_clock > 0,
        project.beat_num <= 127,
        project.beat_clock <= 32767,
        project.num_measures >= 1,
    ensures
        r is Ok <==> refs_ok(all_events@, project.units@.len(), project.woices@.len()),
        r matches Ok(p) ==> {
            &&& p.wf() && sorted(p.event_list.events@) && references_resolved(&p)
            &&& p.beat_num > 0 && p.beat_clock > 0 && p.num_measures >= 1
            &&& p.event_list.events@.to_multiset() == all_events@.to_multiset()
            &&& forall|k: RPxToneEvent| #[trigger] ties(p.event_list.events@, k) == ties(all_events@, k)
            &&& p.units@ == project.units@
            &&& p.woices@ == project.woices@
            &&& measures_cover_or_saturate(&p)
            &&& p.name == project.name && p.comment == project.comment
            &&& p.beat_clock == project.beat_clock && p.beat_num == project.beat_num
            &&& p.beat_tempo_bits == project.beat_tempo_bits
            &&& p.repeat_measure == project.repeat_measure && p.last_measure == project.last_measure
            &&& p.num_measures == extended_measures(
                project.num_measures as int,
                last_clock as nat,
                project.beat_num * project.beat_clock,
            )
        },
{
    let mut project = project;
    let ghost units = project.units@.len();
    let ghost woices = project.woices@.len();
    project.event_list.events = all_events;
    project.event_list.sort_events();
    proof {
        lemma_refs_ok_multiset(project.event_list.events@, all_events@, units, woices);
    }
    if !check_references(&project) {
        return Err(RPxToneIOError::UnresolvedReference);
    }
    let bn: u32 = project.beat_num as u32;
    let bc: u32 = project.beat_clock as u32;
    assert(0 < bn * bc <= 127 * 32767) by (nonlinear_arith)
        requires
            0 < bn <= 127,
            0 < bc <= 32767,
    ;
    let per: u32 = bn * bc;
    let needed: u64 = last_clock as u64 / per as u64 + if last_clock % per == 0 {
        0
    } else {
        1
    };
    if needed > project.num_measures as u64 {
        project.num_measures = if needed <= i32::MAX as u64 {
            needed as i32
        } else {
            i32::MAX
        };
    }
    proof {
        let l = last_clock as int;
        let pr = per as int;
        let nd = needed as int;
        assert(nd * pr >= l) by (nonlinear_arith)
            requires
                pr > 0,
                l >= 0,
                nd == l / pr + (if l % pr == 0 { 0int } else { 1int }),
        ;
        if project.num_measures != i32::MAX {
            let m = project.num_measures as int;
            assert(m * pr >= l) by (nonlinear_arith)
                requires
                    m >= nd,
                    nd * pr >= l,
                    pr > 0,
            ;
            let bn_i = project.beat_num as int;
            let bc_i = project.beat_clock as int;
            assert(m_times(m, bn_i, bc_i) == m * pr) by (nonlinear_arith)
                requires
                    pr == bn_i * bc_i,
            ;
            lemma_clocks_multiset(project.event_list.events@, all_events@, last_clock);
        }
    }
    Ok(project)
}

/// Checks the project magic at the start of `bytes`.
fn check_header(bytes: &[u8]) -> (r: Result<(), RPxToneIOError>)
    ensures
        r is Ok <==> header_ok(bytes@),
        bytes@.len() < 16 ==> r matches Err(RPxToneIOError::UnexpectedEnd),
        bytes@.len() >= 16 && !header_ok(bytes@) ==> r matches Err(RPxToneIOError::IncorrectHeader),
{
    proof {
        reveal(header_ok);
    }
    let lo = match read_u64(bytes, 0) {
        Some(v) => v,
        None => return Err(RPxToneIOError::UnexpectedEnd),
    };
    let hi = match read_u64(bytes, 8) {
        Some(v) => v,
        None => return Err(RPxToneIOError::UnexpectedEnd),
    };
    if lo != MAGIC_LO || hi != MAGIC_HI {
        return Err(RPxToneIOError::IncorrectHeader);
    }
    Ok(())
}

/// Reads a whole project from `bytes`. It succeeds exactly on files that read (see
/// `file_ok`); then the events are those of the file's event blocks in play order, the units
/// and instruments are those its blocks define, and the measure count is raised to reach the
/// last event's clock.
pub fn read_project(bytes: &[u8]) -> (r: Result<RPxTone, RPxToneIOError>)
    ensures
        r is Ok <==> file_ok(bytes@),
        bytes@.len() < 32 ==> r is Err,
        bytes@.len() < 16 ==> r matches Err(RPxToneIOError::UnexpectedEnd),
        bytes@.len() >= 16 && !header_ok(bytes@) ==> r matches Err(RPxToneIOError::IncorrectHeader),
        header_ok(bytes@) && (bytes@.len() < 20 || walk(bytes@, 20, initial_state()) is Truncated)
            ==> r matches Err(RPxToneIOError::UnexpectedEnd),
        header_ok(bytes@) && bytes@.len() >= 20 && walk(bytes@, 20, initial_state()) is Rejected
            ==> r matches Err(RPxToneIOError::AntiOper),
        r matches Ok(p) ==> {
            &&& p.wf() && sorted(p.event_list.events@) && references_resolved(&p)
            &&& p.beat_num > 0 && p.beat_clock > 0 && p.num_measures >= 1
            &&& measures_cover_or_saturate(&p)
            &&& walk(bytes@, 20, initial_state()) matches WalkEnd::Done(st) && {
                &&& p.units@.len() == st.units
                &&& forall|i: int| 0 <= i < st.units ==> #[trigger] p.units@[i].name@ == st.unit_names[i]
                &&& p.woices@.len() == st.woices
                &&& forall|i: int| 0 <= i < st.woices ==> woice_of(
                    #[trigger] &p.woices@[i],
                    st.woice_blocks[i].0,
                    st.woice_blocks[i].1,
                )
                &&& forall|k: RPxToneEvent| #[trigger] ties(p.event_list.events@, k) == ties(st.events, k)
                &&& p.event_list.events@.to_multiset() == st.events.to_multiset()
                &&& p.name@ == st.name && p.comment@ == st.comment
                &&& p.beat_clock == st.beat_clock && p.beat_num == st.beat_num
                &&& p.beat_tempo_bits == st.beat_tempo_bits
                &&& p.repeat_measure == st.repeat_measure && p.last_measure == st.last_measure
                &&& p.num_measures == extended_measures(
                    st.num_measures,
                    st.last_clock,
                    st.beat_num * st.beat_clock,
                )
            }
        },
{
    check_header(bytes)?;
    if bytes.len() < 20 {
        return Err(RPxToneIOError::UnexpectedEnd);
    }
    let n = bytes.len();
    let mut project = RPxTone::new();
    let mut all_events: Vec<RPxToneEvent> = Vec::new();
    let mut last_clock: u32 = 0;
    let mut pos: usize = 20;
    let ghost whole = walk(bytes@, 20, initial_state());
    let ghost mut wb: Seq<(u64, Seq<u8>)> = Seq::empty();
    proof {
        assert(all_events@ =~= Seq::<RPxToneEvent>::empty());
        assert(project.name@ =~= Seq::<char>::empty());
        assert(project.comment@ =~= Seq::<char>::empty());
        assert(Seq::new(project.units@.len(), |i: int| project.units@[i].name@) =~= Seq::<Seq<char>>::empty());
        assert(project_state(&project, all_events@, last_clock, wb) =~= initial_state());
    }
    loop
        invariant
            20 <= pos <= bytes@.len(),
            n == bytes@.len(),
            header_ok(bytes@),
            project.beat_num > 0,
            project.beat_clock > 0,
            project.beat_num <= 127,
            project.beat_clock <= 32767,
            project.num_measures >= 1,
            project.repeat_measure >= 0,
            project.last_measure >= 0,
            whole == walk(bytes@, 20, initial_state()),
            whole == walk(bytes@, pos as nat, project_state(&project, all_events@, last_clock, wb)),
            wb.len() == project.woices@.len(),
            forall|i: int| 0 <= i < wb.len() ==> woice_of(#[trigger] &project.woices@[i], wb[i].0, wb[i].1),
            forall|i: int| 0 <= i < all_events@.len() ==> (#[trigger] all_events@[i]).clock <= last_clock,
        ensures
            forall|i: int| 0 <= i < all_events@.len() ==> (#[trigger] all_events@[i]).clock <= last_clock,
            bytes@.len() >= 32,
            whole == WalkEnd::Done(project_state(&project, all_events@, last_clock, wb)),
            wb.len() == project.woices@.len(),
            forall|i: int| 0 <= i < wb.len() ==> woice_of(#[trigger] &project.woices@[i], wb[i].0, wb[i].1),
        decreases bytes@.len() - pos,
    {
        proof {
            lemma_walk_step(bytes@, pos as nat, project_state(&project, all_events@, last_clock, wb));
        }
        let tag = match read_u64(bytes, pos) {
            Some(t) => t,
            None => return Err(RPxToneIOError::UnexpectedEnd),
        };
        let size32 = match read_u32(bytes, pos + 8) {
            Some(s) => s,
            None => return Err(RPxToneIOError::UnexpectedEnd),
        };
        let start = pos + 12;
        if size32 as usize > bytes.len() - start {
            return Err(RPxToneIOError::UnexpectedEnd);
        }
        let size = size32 as usize;
        let end = start + size;
        if tag == TAG_END {
            break;
        }
        let ghost before = project.woices@;
        apply_block(&mut project, &mut all_events, &mut last_clock, bytes, tag, start, size, Ghost(wb))?;
        proof {
            let b = bytes@.subrange(start as int, start + size);
            if is_woice_tag(tag) {
                assert forall|i: int| 0 <= i < wb.len() implies woice_of(#[trigger] &project.woices@[i], wb[i].0, wb[i].1) by {
                    assert(project.woices@[i] == project.woices@.take(before.len() as int)[i]);
                }
                wb = wb.push((tag, b));
            }
        }
        pos = end;
    }
    finish_project(project, all_events, last_clock)
}

impl RPxTone {
    /// Replaces this project with the one `bytes` holds; on failure the project is left
    /// as it was.
    pub fn read_bytes(&mut self, bytes: &[u8]) -> (r: Result<(), RPxToneIOError>)
        ensures
            r is Err ==> *final(self) == *old(self),
            r is Ok <==> file_ok(bytes@),
            bytes@.len() < 16 ==> r matches Err(RPxToneIOError::UnexpectedEnd),
            bytes@.len() >= 16 && !header_ok(bytes@) ==> r matches Err(RPxToneIOError::IncorrectHeader),
            header_ok(bytes@) && (bytes@.len() < 20 || walk(bytes@, 20, initial_state()) is Truncated)
                ==> r matches Err(RPxToneIOError::UnexpectedEnd),
            header_ok(bytes@) && bytes@.len() >= 20 && walk(bytes@, 20, initial_state()) is Rejected
                ==> r matches Err(RPxToneIOError::AntiOper),
            r is Ok ==> {
                &&& final(self).wf() && sorted(final(self).event_list.events@) && references_resolved(&*final(self))
                &&& final(self).beat_num > 0 && final(self).beat_clock > 0 && final(self).num_measures >= 1
                &&& measures_cover_or_saturate(&*final(self))
                &&& walk(bytes@, 20, initial_state()) matches WalkEnd::Done(st) && {
                    &&& final(self).units@.len() == st.units
                    &&& forall|i: int| 0 <= i < st.units ==> #[trigger] final(self).units@[i].name@ == st.unit_names[i]
                    &&& final(self).woices@.len() == st.woices
                    &&& forall|i: int| 0 <= i < st.woices ==> woice_of(
                        #[trigger] &final(self).woices@[i],
                        st.woice_blocks[i].0,
                        st.woice_blocks[i].1,
                    )
                    &&& forall|k: RPxToneEvent| #[trigger] ties(final(self).event_list.events@, k) == ties(st.events, k)
                    &&& final(self).event_list.events@.to_multiset() == st.events.to_multiset()
                    &&& final(self).name@ == st.name && final(self).comment@ == st.comment
                    &&& final(self).beat_clock == st.beat_clock && final(self).beat_num == st.beat_num
                    &&& final(self).beat_tempo_bits == st.beat_tempo_bits
                    &&& final(self).repeat_measure == st.repeat_measure && final(self).last_measure == st.last_measure
                    &&& final(self).num_measures == extended_measures(
                        st.num_measures,
                        st.last_clock,
                        st.beat_num * st.beat_clock,
                    )
                }
            },
    {
        let p = read_project(bytes)?;
        *self = p;
        Ok(())
    }
}

} // verus!

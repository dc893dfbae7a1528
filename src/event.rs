//! Events, their payload values, and the event list kept in play order.
use vstd::prelude::*;

verus! {

/// What an event does; the numbering is the one the project format stores.
#[derive(Debug, Clone, Copy, PartialEq, Eq, Structural)]
pub enum EventKind {
    Null,
    On,
    Key,
    PanVolume,
    Velocity,
    Volume,
    Portament,
    BeatClock,
    BeatTempo,
    BeatNum,
    Repeat,
    Last,
    VoiceNo,
    GroupNo,
    Tuning,
    PanTime,
}

/// The kind stored under `code` in a project file; unknown codes mean `Null`.
pub open spec fn kind_of_code(code: u8) -> EventKind {
    match code {
        1 => EventKind::On,
        2 => EventKind::Key,
        3 => EventKind::PanVolume,
        4 => EventKind::Velocity,
        5 => EventKind::Volume,
        6 => EventKind::Portament,
        7 => EventKind::BeatClock,
        8 => EventKind::BeatTempo,
        9 => EventKind::BeatNum,
        10 => EventKind::Repeat,
        11 => EventKind::Last,
        12 => EventKind::VoiceNo,
        13 => EventKind::GroupNo,
        14 => EventKind::Tuning,
        15 => EventKind::PanTime,
        _ => EventKind::Null,
    }
}

impl EventKind {
    /// The code under which a project file stores this kind.
    pub open spec fn code_spec(self) -> u8 {
        match self {
            EventKind::Null => 0,
            EventKind::On => 1,
            EventKind::Key => 2,
            EventKind::PanVolume => 3,
            EventKind::Velocity => 4,
            EventKind::Volume => 5,
            EventKind::Portament => 6,
            EventKind::BeatClock => 7,
            EventKind::BeatTempo => 8,
            EventKind::BeatNum => 9,
            EventKind::Repeat => 10,
            EventKind::Last => 11,
            EventKind::VoiceNo => 12,
            EventKind::GroupNo => 13,
            EventKind::Tuning => 14,
            EventKind::PanTime => 15,
        }
    }

    /// Order among events of one clock: the smaller applies first. Master-level kinds
    /// (and `Null`) come after every unit-level kind.
    pub open spec fn priority_spec(self) -> u8 {
        match self {
            EventKind::On => 0,
            EventKind::Key => 1,
            EventKind::PanVolume => 2,
            EventKind::Velocity => 3,
            EventKind::Volume => 4,
            EventKind::Portament => 5,
            EventKind::VoiceNo => 6,
            EventKind::GroupNo => 7,
            EventKind::Tuning => 8,
            EventKind::PanTime => 9,
            _ => 10,
        }
    }

    /// Whether events of this kind drive a unit (and so may be added to a list).
    pub open spec fn is_unit_kind_spec(self) -> bool {
        self.priority_spec() < 10
    }

    /// The kind stored under `code`.
    pub fn from_u8(code: u8) -> (r: EventKind)
        ensures
            r == kind_of_code(code),
    {
        match code {
            1 => EventKind::On,
            2 => EventKind::Key,
            3 => EventKind::PanVolume,
            4 => EventKind::Velocity,
            5 => EventKind::Volume,
            6 => EventKind::Portament,
            7 => EventKind::BeatClock,
            8 => EventKind::BeatTempo,
            9 => EventKind::BeatNum,
            10 => EventKind::Repeat,
            11 => EventKind::Last,
            12 => EventKind::VoiceNo,
            13 => EventKind::GroupNo,
            14 => EventKind::Tuning,
            15 => EventKind::PanTime,
            _ => EventKind::Null,
        }
    }

    #[verifier::when_used_as_spec(code_spec)]
    pub fn to_u8(self) -> (r: u8)
        ensures
            r == self.code_spec(),
    {
        match self {
            EventKind::Null => 0,
            EventKind::On => 1,
            EventKind::Key => 2,
            EventKind::PanVolume => 3,
            EventKind::Velocity => 4,
            EventKind::Volume => 5,
            EventKind::Portament => 6,
            EventKind::BeatClock => 7,
            EventKind::BeatTempo => 8,
            EventKind::BeatNum => 9,
            EventKind::Repeat => 10,
            EventKind::Last => 11,
            EventKind::VoiceNo => 12,
            EventKind::GroupNo => 13,
            EventKind::Tuning => 14,
            EventKind::PanTime => 15,
        }
    }

    #[verifier::when_used_as_spec(priority_spec)]
    pub fn priority(self) -> (r: u8)
        ensures
            r == self.priority_spec(),
    {
        match self {
            EventKind::On => 0,
            EventKind::Key => 1,
            EventKind::PanVolume => 2,
            EventKind::Velocity => 3,
            EventKind::Volume => 4,
            EventKind::Portament => 5,
            EventKind::VoiceNo => 6,
            EventKind::GroupNo => 7,
            EventKind::Tuning => 8,
            EventKind::PanTime => 9,
            _ => 10,
        }
    }

    #[verifier::when_used_as_spec(is_unit_kind_spec)]
    pub fn is_unit_kind(self) -> (r: bool)
        ensures
            r == self.is_unit_kind_spec(),
    {
        self.priority() < 10
    }
}

/// Every kind's code reads back as that kind.
pub proof fn lemma_kind_code_round_trip(k: EventKind)
    ensures
        kind_of_code(k.code_spec()) == k,
{
}

/// A stereo position in 64ths: -64 is full left, 0 the centre, 64 full right.
#[derive(Debug, Clone, Copy, PartialEq, Eq, Structural)]
pub struct PanValue {
    pub sixty_fourths: i32,
}

/// `v` limited to `[lo, hi]`.
pub open spec fn clamp(v: int, lo: int, hi: int) -> int {
    if v < lo {
        lo
    } else if v > hi {
        hi
    } else {
        v
    }
}

impl PanValue {
    pub open spec fn wf(self) -> bool {
        -64 <= self.sixty_fourths <= 64
    }

    /// The position `sixty_fourths / 64`, limited to `[-1, 1]`.
    pub fn new(sixty_fourths: i32) -> (r: PanValue)
        ensures
            r.wf(),
            r.sixty_fourths == clamp(sixty_fourths as int, -64, 64),
    {
        let v = if sixty_fourths < -64 {
            -64
        } else if sixty_fourths > 64 {
            64
        } else {
            sixty_fourths
        };
        PanValue { sixty_fourths: v }
    }

    pub fn left() -> (r: PanValue)
        ensures
            r.sixty_fourths == -64,
    {
        PanValue { sixty_fourths: -64 }
    }

    pub fn center() -> (r: PanValue)
        ensures
            r.sixty_fourths == 0,
    {
        PanValue { sixty_fourths: 0 }
    }

    pub fn right() -> (r: PanValue)
        ensures
            r.sixty_fourths == 64,
    {
        PanValue { sixty_fourths: 64 }
    }

    /// The position a stored value `v` (0 to 128, 64 the centre) stands for.
    pub fn from_disk(v: i32) -> (r: PanValue)
        ensures
            r.wf(),
            r.sixty_fourths == pan_of_disk(v),
    {
        let c: i32 = if v < 0 {
            0
        } else if v > 128 {
            128
        } else {
            v
        };
        PanValue { sixty_fourths: c - 64 }
    }

    /// The value stored for this position.
    pub fn to_disk(self) -> (r: i32)
        requires
            self.wf(),
        ensures
            r == self.sixty_fourths + 64,
    {
        self.sixty_fourths + 64
    }
}

/// The position, in 64ths, that a stored pan value stands for.
pub open spec fn pan_of_disk(v: i32) -> int {
    clamp(v as int, 0, 128) - 64
}

/// A level from 0 to 1 in 128ths (velocity, volume).
#[derive(Debug, Clone, Copy, PartialEq, Eq, Structural)]
pub struct UnitInterval {
    pub level: i32,
}

impl UnitInterval {
    pub open spec fn wf(self) -> bool {
        0 <= self.level <= 128
    }

    /// The level `level / 128`, limited to `[0, 1]`; a stored value reads the same way.
    pub fn new(level: i32) -> (r: UnitInterval)
        ensures
            r.wf(),
            r.level == clamp(level as int, 0, 128),
    {
        let v = if level < 0 {
            0
        } else if level > 128 {
            128
        } else {
            level
        };
        UnitInterval { level: v }
    }

    /// The value stored for this level.
    pub fn to_disk(self) -> (r: i32)
        ensures
            r == self.level,
    {
        self.level
    }
}

/// Bit pattern of the largest tuning, the `f32` 9.99999.
pub const TUNING_MAX_BITS: u32 = 0x411f_fff6;

/// Bit pattern of the neutral tuning, the `f32` 1.0.
pub const TUNING_ONE_BITS: u32 = 0x3f80_0000;

/// A frequency multiplier held as the bit pattern of an `f32` in `[0, 9.99999]` (or NaN).
#[derive(Debug, Clone, Copy, PartialEq, Eq, Structural)]
pub struct TuningValue {
    pub bits: u32,
}

/// The bit pattern of the `f32` clamped to `[0, 9.99999]`: a NaN stays as it is (as with
/// `f32::clamp`), so does -0.0 (which lies in the range), a number below zero becomes +0,
/// and a number above 9.99999 (a non-negative `f32` orders as its bit pattern) becomes
/// 9.99999.
pub open spec fn tuning_clamp(bits: u32) -> u32 {
    if bits % 0x8000_0000 > 0x7f80_0000 {
        bits
    } else if bits == 0x8000_0000 {
        bits
    } else if bits > 0x8000_0000 {
        0
    } else if bits > TUNING_MAX_BITS {
        TUNING_MAX_BITS
    } else {
        bits
    }
}

impl TuningValue {
    pub open spec fn wf(self) -> bool {
        tuning_clamp(self.bits) == self.bits
    }

    /// The tuning whose `f32` has bit pattern `bits`, limited to `[0, 9.99999]`.
    pub fn from_bits(bits: u32) -> (r: TuningValue)
        ensures
            r.wf(),
            r.bits == tuning_clamp(bits),
    {
        if bits % 0x8000_0000 > 0x7f80_0000 || bits == 0x8000_0000 {
            TuningValue { bits }
        } else if bits > 0x8000_0000 {
            TuningValue { bits: 0 }
        } else if bits > TUNING_MAX_BITS {
            TuningValue { bits: TUNING_MAX_BITS }
        } else {
            TuningValue { bits }
        }
    }

    pub fn one() -> (r: TuningValue)
        ensures
            r.bits == TUNING_ONE_BITS,
    {
        TuningValue { bits: TUNING_ONE_BITS }
    }
}

/// A stored pan value reads back unchanged, and so does a position written out.
pub proof fn lemma_pan_round_trip(v: i32, p: PanValue)
    requires
        0 <= v <= 128,
        p.wf(),
    ensures
        pan_of_disk(v) + 64 == v,
        pan_of_disk((p.sixty_fourths + 64) as i32) == p.sixty_fourths,
{
}

/// A stored level reads back unchanged, and so does a level written out.
pub proof fn lemma_level_round_trip(v: i32, l: UnitInterval)
    requires
        0 <= v <= 128,
        l.wf(),
    ensures
        clamp(v as int, 0, 128) == v,
        clamp(l.level as int, 0, 128) == l.level,
{
}

/// A tuning in range reads back unchanged from its bit pattern.
pub proof fn lemma_tuning_round_trip(t: TuningValue)
    requires
        t.wf(),
    ensures
        tuning_clamp(t.bits) == t.bits,
{
}

/// One event: at `clock` (ticks), for unit `unit_no`, of `kind`, with its payload as the
/// project format stores it.
#[derive(Debug, Clone, Copy, PartialEq, Eq, Structural)]
pub struct RPxToneEvent {
    pub clock: u32,
    pub unit_no: u8,
    pub kind: EventKind,
    pub value: i32,
}

impl RPxToneEvent {
    /// A note of `length` ticks.
    pub fn new_on(clock: u32, unit_no: u8, length: u32) -> (r: RPxToneEvent)
        ensures
            r == (RPxToneEvent { clock, unit_no, kind: EventKind::On, value: length as i32 }),
    {
        RPxToneEvent { clock, unit_no, kind: EventKind::On, value: length as i32 }
    }

    /// A pitch in 256ths of a semitone.
    pub fn new_key(clock: u32, unit_no: u8, key: i32) -> (r: RPxToneEvent)
        ensures
            r == (RPxToneEvent { clock, unit_no, kind: EventKind::Key, value: key }),
    {
        RPxToneEvent { clock, unit_no, kind: EventKind::Key, value: key }
    }

    pub fn new_pan_volume(clock: u32, unit_no: u8, pan: PanValue) -> (r: RPxToneEvent)
        requires
            pan.wf(),
        ensures
            r == (RPxToneEvent {
                clock,
                unit_no,
                kind: EventKind::PanVolume,
                value: (pan.sixty_fourths + 64) as i32,
            }),
    {
        RPxToneEvent { clock, unit_no, kind: EventKind::PanVolume, value: pan.to_disk() }
    }

    pub fn new_velocity(clock: u32, unit_no: u8, velocity: UnitInterval) -> (r: RPxToneEvent)
        ensures
            r == (RPxToneEvent { clock, unit_no, kind: EventKind::Velocity, value: velocity.level }),
    {
        RPxToneEvent { clock, unit_no, kind: EventKind::Velocity, value: velocity.to_disk() }
    }

    pub fn new_volume(clock: u32, unit_no: u8, volume: UnitInterval) -> (r: RPxToneEvent)
        ensures
            r == (RPxToneEvent { clock, unit_no, kind: EventKind::Volume, value: volume.level }),
    {
        RPxToneEvent { clock, unit_no, kind: EventKind::Volume, value: volume.to_disk() }
    }

    /// A glide of `porta` ticks for later key changes.
    pub fn new_porta(clock: u32, unit_no: u8, porta: u32) -> (r: RPxToneEvent)
        ensures
            r == (RPxToneEvent {
                clock,
                unit_no,
                kind: EventKind::Portament,
                value: porta as i32,
            }),
    {
        RPxToneEvent { clock, unit_no, kind: EventKind::Portament, value: porta as i32 }
    }

    pub fn new_voice_no(clock: u32, unit_no: u8, voice_no: u8) -> (r: RPxToneEvent)
        ensures
            r == (RPxToneEvent {
                clock,
                unit_no,
                kind: EventKind::VoiceNo,
                value: voice_no as i32,
            }),
    {
        RPxToneEvent { clock, unit_no, kind: EventKind::VoiceNo, value: voice_no as i32 }
    }

    pub fn new_group_no(clock: u32, unit_no: u8, group_no: u8) -> (r: RPxToneEvent)
        ensures
            r == (RPxToneEvent {
                clock,
                unit_no,
                kind: EventKind::GroupNo,
                value: group_no as i32,
            }),
    {
        RPxToneEvent { clock, unit_no, kind: EventKind::GroupNo, value: group_no as i32 }
    }

    pub fn new_tuning(clock: u32, unit_no: u8, tuning: TuningValue) -> (r: RPxToneEvent)
        ensures
            r == (RPxToneEvent {
                clock,
                unit_no,
                kind: EventKind::Tuning,
                value: tuning.bits as i32,
            }),
    {
        RPxToneEvent { clock, unit_no, kind: EventKind::Tuning, value: tuning.bits as i32 }
    }

    pub fn new_pan_time(clock: u32, unit_no: u8, pan: PanValue) -> (r: RPxToneEvent)
        requires
            pan.wf(),
        ensures
            r == (RPxToneEvent {
                clock,
                unit_no,
                kind: EventKind::PanTime,
                value: (pan.sixty_fourths + 64) as i32,
            }),
    {
        RPxToneEvent { clock, unit_no, kind: EventKind::PanTime, value: pan.to_disk() }
    }

    /// The pan position a `PanVolume` or `PanTime` event sets.
    pub fn pan_value(&self) -> (r: PanValue)
        ensures
            r.wf(),
            r.sixty_fourths == pan_of_disk(self.value),
    {
        PanValue::from_disk(self.value)
    }

    /// The level a `Velocity` or `Volume` event sets.
    pub fn level(&self) -> (r: UnitInterval)
        ensures
            r.wf(),
            r.level == clamp(self.value as int, 0, 128),
    {
        UnitInterval::new(self.value)
    }

    /// The tuning a `Tuning` event sets.
    pub fn tuning_value(&self) -> (r: TuningValue)
        ensures
            r.wf(),
            r.bits == tuning_clamp(self.value as u32),
    {
        TuningValue::from_bits(self.value as u32)
    }
}

/// The `u32` with the bit pattern of `v`.
pub open spec fn u32_of_bits(v: i32) -> u32 {
    if v < 0 {
        (v + 0x1_0000_0000) as u32
    } else {
        v as u32
    }
}

fn to_u32_bits(v: i32) -> (r: u32)
    ensures
        r == u32_of_bits(v),
{
    if v < 0 {
        (v as i64 + 0x1_0000_0000) as u32
    } else {
        v as u32
    }
}

/// Where and for which unit an event applies.
pub trait BaseEvent {
    spec fn clock_spec(&self) -> u32;

    spec fn unit_no_spec(&self) -> u8;

    fn clock(&self) -> (r: u32)
        ensures
            r == self.clock_spec(),
    ;

    fn set_clock(&mut self, clock: u32)
        ensures
            final(self).clock_spec() == clock,
            final(self).unit_no_spec() == old(self).unit_no_spec(),
    ;

    fn unit_no(&self) -> (r: u8)
        ensures
            r == self.unit_no_spec(),
    ;

    fn set_unit_no(&mut self, unit_no: u8)
        ensures
            final(self).unit_no_spec() == unit_no,
            final(self).clock_spec() == old(self).clock_spec(),
    ;
}

/// An event's payload read as a note length.
pub trait EventOn: BaseEvent {
    spec fn length_spec(&self) -> u32;

    fn length(&self) -> (r: u32)
        ensures
            r == self.length_spec(),
    ;

    fn set_length(&mut self, length: u32)
        ensures
            final(self).length_spec() == length,
            final(self).clock_spec() == old(self).clock_spec(),
            final(self).unit_no_spec() == old(self).unit_no_spec(),
    ;
}

/// An event's payload read as a key.
pub trait EventKey: BaseEvent {
    spec fn key_spec(&self) -> i32;

    fn key(&self) -> (r: i32)
        ensures
            r == self.key_spec(),
    ;

    fn set_key(&mut self, key: i32)
        ensures
            final(self).key_spec() == key,
            final(self).clock_spec() == old(self).clock_spec(),
            final(self).unit_no_spec() == old(self).unit_no_spec(),
    ;
}

/// An event's payload read as a glide time.
pub trait EventPorta: BaseEvent {
    spec fn porta_spec(&self) -> u32;

    fn porta(&self) -> (r: u32)
        ensures
            r == self.porta_spec(),
    ;

    fn set_porta(&mut self, porta: u32)
        ensures
            final(self).porta_spec() == porta,
            final(self).clock_spec() == old(self).clock_spec(),
            final(self).unit_no_spec() == old(self).unit_no_spec(),
    ;
}

/// An event's payload read as an instrument number.
pub trait EventVoiceNo: BaseEvent {
    spec fn voice_no_spec(&self) -> u8;

    fn voice_no(&self) -> (r: u8)
        ensures
            r == self.voice_no_spec(),
    ;

    fn set_voice_no(&mut self, voice_no: u8)
        ensures
            final(self).voice_no_spec() == voice_no,
            final(self).clock_spec() == old(self).clock_spec(),
            final(self).unit_no_spec() == old(self).unit_no_spec(),
    ;
}

/// An event's payload read as an effect group number.
pub trait EventGroupNo: BaseEvent {
    spec fn group_no_spec(&self) -> u8;

    fn group_no(&self) -> (r: u8)
        ensures
            r == self.group_no_spec(),
    ;

    fn set_group_no(&mut self, group_no: u8)
        ensures
            final(self).group_no_spec() == group_no,
            final(self).clock_spec() == old(self).clock_spec(),
            final(self).unit_no_spec() == old(self).unit_no_spec(),
    ;
}

/// Just a clock and a unit.
#[derive(Debug, Clone, Copy, PartialEq, Eq, Structural)]
pub struct BaseEventImpl {
    pub clock: u32,
    pub unit_no: u8,
}

impl BaseEvent for BaseEventImpl {
    open spec fn clock_spec(&self) -> u32 {
        self.clock
    }

    open spec fn unit_no_spec(&self) -> u8 {
        self.unit_no
    }

    fn clock(&self) -> (r: u32) {
        self.clock
    }

    fn set_clock(&mut self, clock: u32) {
        self.clock = clock;
    }

    fn unit_no(&self) -> (r: u8) {
        self.unit_no
    }

    fn set_unit_no(&mut self, unit_no: u8) {
        self.unit_no = unit_no;
    }
}

impl BaseEvent for RPxToneEvent {
    open spec fn clock_spec(&self) -> u32 {
        self.clock
    }

    open spec fn unit_no_spec(&self) -> u8 {
        self.unit_no
    }

    fn clock(&self) -> (r: u32) {
        self.clock
    }

    fn set_clock(&mut self, clock: u32) {
        self.clock = clock;
    }

    fn unit_no(&self) -> (r: u8) {
        self.unit_no
    }

    fn set_unit_no(&mut self, unit_no: u8) {
        self.unit_no = unit_no;
    }
}

impl EventOn for RPxToneEvent {
    open spec fn length_spec(&self) -> u32 {
        u32_of_bits(self.value)
    }

    fn length(&self) -> (r: u32) {
        to_u32_bits(self.value)
    }

    fn set_length(&mut self, length: u32) {
        self.value = if length > 0x7fff_ffff {
            (length as i64 - 0x1_0000_0000) as i32
        } else {
            length as i32
        };
    }
}

impl EventKey for RPxToneEvent {
    open spec fn key_spec(&self) -> i32 {
        self.value
    }

    fn key(&self) -> (r: i32) {
        self.value
    }

    fn set_key(&mut self, key: i32) {
        self.value = key;
    }
}

impl EventPorta for RPxToneEvent {
    open spec fn porta_spec(&self) -> u32 {
        u32_of_bits(self.value)
    }

    fn porta(&self) -> (r: u32) {
        to_u32_bits(self.value)
    }

    fn set_porta(&mut self, porta: u32) {
        self.value = if porta > 0x7fff_ffff {
            (porta as i64 - 0x1_0000_0000) as i32
        } else {
            porta as i32
        };
    }
}

impl EventVoiceNo for RPxToneEvent {
    open spec fn voice_no_spec(&self) -> u8 {
        self.value as u8
    }

    fn voice_no(&self) -> (r: u8) {
        self.value as u8
    }

    fn set_voice_no(&mut self, voice_no: u8) {
        self.value = voice_no as i32;
    }
}

impl EventGroupNo for RPxToneEvent {
    open spec fn group_no_spec(&self) -> u8 {
        self.value as u8
    }

    fn group_no(&self) -> (r: u8) {
        self.value as u8
    }

    fn set_group_no(&mut self, group_no: u8) {
        self.value = group_no as i32;
    }
}

/// `a` applies no later than `b`: an earlier clock, or the same clock and a kind of no
/// greater priority.
pub open spec fn key_le(a: RPxToneEvent, b: RPxToneEvent) -> bool {
    a.clock < b.clock || (a.clock == b.clock && a.kind.priority_spec() <= b.kind.priority_spec())
}

/// Events in play order.
pub open spec fn sorted(s: Seq<RPxToneEvent>) -> bool {
    forall|i: int, j: int| 0 <= i < j < s.len() ==> key_le(#[trigger] s[i], #[trigger] s[j])
}

/// Events in order of clock (what play order implies).
pub open spec fn clock_sorted(s: Seq<RPxToneEvent>) -> bool {
    forall|i: int, j: int| 0 <= i < j < s.len() ==> (#[trigger] s[i]).clock <= (#[trigger] s[j]).clock
}

/// Play order implies order of clock.
pub proof fn lemma_sorted_clock_order(s: Seq<RPxToneEvent>)
    requires
        sorted(s),
    ensures
        clock_sorted(s),
{
    assert forall|i: int, j: int| 0 <= i < j < s.len() implies (#[trigger] s[i]).clock <= (
    #[trigger] s[j]).clock by {
        assert(key_le(s[i], s[j]));
    }
}

/// `s` with `e` at `idx`, where `idx` keeps play order and places `e` after the events it
/// ties with.
pub open spec fn insert_spot(s: Seq<RPxToneEvent>, e: RPxToneEvent, idx: int) -> bool {
    &&& 0 <= idx <= s.len()
    &&& forall|j: int| 0 <= j < idx ==> key_le(#[trigger] s[j], e)
    &&& forall|j: int| idx <= j < s.len() ==> !key_le(#[trigger] s[j], e)
}

/// Events of unit `u` dropped and the units above `u` moved down by one.
pub open spec fn rehome(s: Seq<RPxToneEvent>, u: u8) -> Seq<RPxToneEvent>
    decreases s.len(),
{
    if s.len() == 0 {
        s
    } else {
        let r = rehome(s.drop_last(), u);
        let e = s.last();
        if e.unit_no == u {
            r
        } else if e.unit_no > u {
            r.push(RPxToneEvent { unit_no: (e.unit_no - 1) as u8, ..e })
        } else {
            r.push(e)
        }
    }
}

/// The event list refused an event.
#[derive(Debug, Clone, Copy, PartialEq, Eq, Structural)]
pub struct AddEventError {}

/// The events of a project, kept in play order.
#[derive(Debug)]
pub struct RPxToneEventList {
    pub events: Vec<RPxToneEvent>,
}

/// Two events tie when they share clock and priority.
pub open spec fn same_key(a: RPxToneEvent, b: RPxToneEvent) -> bool {
    a.clock == b.clock && a.kind.priority_spec() == b.kind.priority_spec()
}

/// The test for events that tie with `k`.
pub open spec fn ties_with(k: RPxToneEvent) -> spec_fn(RPxToneEvent) -> bool {
    |e: RPxToneEvent| same_key(e, k)
}

/// The events of `s` that tie with `k`, in their order in `s`.
pub open spec fn ties(s: Seq<RPxToneEvent>, k: RPxToneEvent) -> Seq<RPxToneEvent> {
    s.filter(ties_with(k))
}

proof fn lemma_filter_none(b: Seq<RPxToneEvent>, pred: spec_fn(RPxToneEvent) -> bool)
    requires
        forall|i: int| 0 <= i < b.len() ==> !pred(b[i]),
    ensures
        b.filter(pred) == Seq::<RPxToneEvent>::empty(),
    decreases b.len(),
{
    reveal(Seq::filter);
    if b.len() > 0 {
        lemma_filter_none(b.drop_last(), pred);
    }
}

proof fn lemma_filter_push(s: Seq<RPxToneEvent>, e: RPxToneEvent, pred: spec_fn(RPxToneEvent) -> bool)
    ensures
        s.push(e).filter(pred) == if pred(e) {
            s.filter(pred).push(e)
        } else {
            s.filter(pred)
        },
{
    reveal(Seq::filter);
    assert(s.push(e).drop_last() =~= s);
}

/// Inserting `e` at a spot that keeps play order and comes after its ties adds `e` at the
/// end of its ties and leaves every other group of ties as it was.
proof fn lemma_ties_insert(s: Seq<RPxToneEvent>, e: RPxToneEvent, idx: int, k: RPxToneEvent)
    requires
        insert_spot(s, e, idx),
    ensures
        ties(s.insert(idx, e), k) == if same_key(e, k) {
            ties(s, k).push(e)
        } else {
            ties(s, k)
        },
{
    let pred = ties_with(k);
    let a = s.take(idx);
    let b = s.skip(idx);
    assert(s.insert(idx, e) =~= a.push(e) + b);
    assert(s =~= a + b);
    Seq::filter_distributes_over_add(a.push(e), b, pred);
    Seq::filter_distributes_over_add(a, b, pred);
    lemma_filter_push(a, e, pred);
    if same_key(e, k) {
        assert forall|i: int| 0 <= i < b.len() implies !pred(b[i]) by {
            assert(b[i] == s[idx + i]);
            assert(!key_le(s[idx + i], e));
        }
        lemma_filter_none(b, pred);
        assert(a.filter(pred).push(e) + Seq::<RPxToneEvent>::empty() =~= (a.filter(pred) + Seq::<RPxToneEvent>::empty()).push(e));
    }
}

fn insertion_index(events: &Vec<RPxToneEvent>, e: &RPxToneEvent) -> (idx: usize)
    requires
        sorted(events@),
    ensures
        insert_spot(events@, *e, idx as int),
{
    let mut i: usize = 0;
    while i < events.len()
        invariant
            i <= events@.len(),
            sorted(events@),
            forall|j: int| 0 <= j < i ==> key_le(#[trigger] events@[j], *e),
        decreases events@.len() - i,
    {
        let x = &events[i];
        if x.clock > e.clock || (x.clock == e.clock && x.kind.priority() > e.kind.priority()) {
            assert forall|j: int| i <= j < events@.len() implies !key_le(#[trigger] events@[j], *e) by {
                if j > i {
                    assert(key_le(events@[i as int], events@[j]));
                }
            }
            return i;
        }
        i = i + 1;
    }
    i
}

fn insert_sorted(events: &mut Vec<RPxToneEvent>, e: RPxToneEvent)
    requires
        sorted(old(events)@),
    ensures
        sorted(final(events)@),
        exists|idx: int|
            insert_spot(old(events)@, e, idx) && final(events)@ == old(events)@.insert(idx, e),
        forall|k: RPxToneEvent|
            #[trigger] ties(final(events)@, k) == if same_key(e, k) {
                ties(old(events)@, k).push(e)
            } else {
                ties(old(events)@, k)
            },
{
    let idx = insertion_index(events, &e);
    events.insert(idx, e);
    let ghost s = final(events)@;
    assert(s == old(events)@.insert(idx as int, e));
    assert forall|i: int, j: int| 0 <= i < j < s.len() implies key_le(#[trigger] s[i], #[trigger] s[j]) by {
        let o = old(events)@;
        if i < idx && j < idx {
            assert(key_le(o[i], o[j]));
        } else if i < idx && j == idx {
        } else if i < idx && j > idx {
            assert(key_le(o[i], o[j - 1]));
        } else if i == idx {
            assert(!key_le(o[j - 1], e));
        } else {
            assert(key_le(o[i - 1], o[j - 1]));
        }
    }
    assert forall|k: RPxToneEvent|
        #[trigger] ties(final(events)@, k) == if same_key(e, k) {
            ties(old(events)@, k).push(e)
        } else {
            ties(old(events)@, k)
        } by {
        lemma_ties_insert(old(events)@, e, idx as int, k);
    }
}

impl RPxToneEventList {
    pub open spec fn wf(&self) -> bool {
        sorted(self.events@)
    }

    pub fn new() -> (r: RPxToneEventList)
        ensures
            r.wf(),
            r.events@.len() == 0,
    {
        RPxToneEventList { events: Vec::new() }
    }

    pub fn len(&self) -> (r: usize)
        ensures
            r == self.events@.len(),
    {
        self.events.len()
    }

    pub fn get(&self, i: usize) -> (r: Option<&RPxToneEvent>)
        ensures
            i < self.events@.len() ==> r == Some(&self.events@[i as int]),
            i >= self.events@.len() ==> r is None,
    {
        if i < self.events.len() {
            Some(&self.events[i])
        } else {
            None
        }
    }

    /// Puts the events in play order, keeping the same events.
    pub fn sort_events(&mut self)
        ensures
            final(self).wf(),
            final(self).events@.to_multiset() == old(self).events@.to_multiset(),
            forall|k: RPxToneEvent| #[trigger] ties(final(self).events@, k) == ties(old(self).events@, k),
    {
        let mut out: Vec<RPxToneEvent> = Vec::new();
        let mut i: usize = 0;
        let ghost src = self.events@;
        proof {
            broadcast use vstd::seq_lib::group_to_multiset_ensures;
            assert(src.take(0) =~= Seq::<RPxToneEvent>::empty());
            reveal(Seq::filter);
            assert forall|k: RPxToneEvent| #[trigger] ties(out@, k) == ties(src.take(0), k) by {
                assert(out@ =~= Seq::<RPxToneEvent>::empty());
            }
        }
        while i < self.events.len()
            invariant
                self.events@ == src,
                i <= src.len(),
                sorted(out@),
                out@.to_multiset() == src.take(i as int).to_multiset(),
                forall|k: RPxToneEvent| #[trigger] ties(out@, k) == ties(src.take(i as int), k),
            decreases src.len() - i,
        {
            let e = self.events[i];
            let ghost before = out@;
            insert_sorted(&mut out, e);
            proof {
                broadcast use vstd::seq_lib::group_to_multiset_ensures;
                let idx = choose|idx: int| insert_spot(before, e, idx) && out@ == before.insert(idx, e);
                vstd::seq_lib::to_multiset_insert(before, idx, e);
                assert(src.take(i + 1) =~= src.take(i as int).push(e));
                assert forall|k: RPxToneEvent| #[trigger] ties(out@, k) == ties(src.take(i + 1), k) by {
                    lemma_filter_push(src.take(i as int), e, ties_with(k));
                }
            }
            i = i + 1;
        }
        proof {
            assert(src.take(src.len() as int) =~= src);
            assert(src.take(0) =~= Seq::<RPxToneEvent>::empty());
        }
        self.events = out;
    }

    /// Adds `event` in play order, after the events it ties with. Only the kinds that
    /// drive a unit can be added.
    pub fn add(&mut self, event: RPxToneEvent) -> (r: Result<(), AddEventError>)
        requires
            old(self).wf(),
        ensures
            final(self).wf(),
            r is Ok <==> event.kind.is_unit_kind_spec(),
            r is Ok ==> exists|idx: int|
                insert_spot(old(self).events@, event, idx) && final(self).events@ == old(
                    self,
                ).events@.insert(idx, event),
            r is Err ==> final(self).events@ == old(self).events@,
    {
        if !event.kind.is_unit_kind() {
            return Err(AddEventError {});
        }
        insert_sorted(&mut self.events, event);
        Ok(())
    }

    /// Drops the events of a removed unit and renumbers the units after it.
    pub fn remove_unit_references(&mut self, unit_no: u8)
        requires
            old(self).wf(),
        ensures
            final(self).wf(),
            final(self).events@ == rehome(old(self).events@, unit_no),
    {
        let ghost src = self.events@;
        let mut out: Vec<RPxToneEvent> = Vec::new();
        let mut i: usize = 0;
        proof {
            assert(src.take(0) =~= Seq::<RPxToneEvent>::empty());
        }
        while i < self.events.len()
            invariant
                self.events@ == src,
                sorted(src),
                i <= src.len(),
                out@ == rehome(src.take(i as int), unit_no),
                sorted(out@),
                out@.len() > 0 ==> forall|j: int| i <= j < src.len() ==> key_le(out@.last(), #[trigger] src[j]),
            decreases src.len() - i,
        {
            let e = self.events[i];
            proof {
                assert(src.take(i + 1).drop_last() =~= src.take(i as int));
                assert(src.take(i + 1).last() == e);
            }
            if e.unit_no != unit_no {
                let moved = if e.unit_no > unit_no {
                    RPxToneEvent { unit_no: e.unit_no - 1, ..e }
                } else {
                    e
                };
                proof {
                    assert forall|k: int| 0 <= k < out@.len() implies key_le(#[trigger] out@[k], moved) by {
                        if k < out@.len() - 1 {
                            assert(key_le(out@[k], out@.last()));
                        }
                    }
                    assert forall|j: int| i < j < src.len() implies key_le(moved, #[trigger] src[j]) by {
                        assert(key_le(src[i as int], src[j]));
                    }
                }
                out.push(moved);
            } else {
                proof {
                    if out@.len() > 0 {
                        assert forall|j: int| i < j < src.len() implies key_le(out@.last(), #[trigger] src[j]) by {
                            assert(key_le(out@.last(), src[j]));
                        }
                    }
                }
            }
            i = i + 1;
        }
        proof {
            assert(src.take(src.len() as int) =~= src);
        }
        self.events = out;
    }
}

} // verus!

//! The sequencing side of rendering: which events apply when, what they do to each
//! unit's state, the key a glide has reached, and how pan splits between channels.
use vstd::prelude::*;
use crate::event::{
    EventKind, EventOn, PanValue, RPxToneEvent, RPxToneEventList, TuningValue, UnitInterval, clamp,
    pan_of_disk, sorted, tuning_clamp, TUNING_ONE_BITS,
};

verus! {

/// The key a unit plays before any key event: A4, 440 Hz.
pub const DEFAULT_KEY: i32 = 24576;

/// The velocity and volume a unit starts with, in 128ths.
pub const DEFAULT_LEVEL: i32 = 104;

/// The number of units events can address.
pub const UNIT_SLOTS: usize = 256;

/// The direction of a fade.
#[derive(Debug)]
pub enum Fade {
    In,
    Out,
}

/// Why the sampler refused a call.
#[derive(Debug, Clone, Copy, PartialEq, Eq, Structural)]
pub enum RPxToneMooError {
    /// Channel count other than 1 or 2.
    InvalidFormat,
    /// Sampling before `prepare_sample`.
    NotPrepared,
}

/// A note being played: its start and length in ticks.
#[derive(Debug, Clone, Copy, PartialEq, Eq, Structural)]
pub struct UnitOnData {
    pub start: u32,
    pub length: u32,
}

/// What a unit is doing: its note, its key and glide, and its levels.
#[derive(Debug, Clone, Copy, PartialEq, Eq, Structural)]
pub struct UnitData {
    pub on: Option<UnitOnData>,
    /// The key sounding now, glide included.
    pub key_now: i32,
    /// The key the current glide starts from.
    pub key_start: i64,
    /// How far the current glide goes from `key_start`.
    pub key_margin: i64,
    pub volume: UnitInterval,
    pub velocity: UnitInterval,
    pub woice: u8,
    pub tuning: TuningValue,
    /// Glide time in ticks.
    pub porta: u32,
    /// Clock at which the current glide started.
    pub porta_start: u32,
    pub pan_volume: PanValue,
}

/// The key a glide from `start` by `margin` over `porta` ticks (begun at `porta_start`) has
/// reached at `clock`: the whole way once `porta` ticks have passed or when there is no
/// glide, else the part of the way in proportion, rounded toward `start`.
pub open spec fn glide_key(start: int, margin: int, porta: u32, porta_start: u32, clock: u32) -> int {
    let elapsed: int = if clock >= porta_start {
        clock - porta_start
    } else {
        0
    };
    if porta == 0 || margin == 0 || elapsed >= porta {
        start + margin
    } else if margin > 0 {
        start + margin * elapsed / (porta as int)
    } else {
        start - (-margin) * elapsed / (porta as int)
    }
}

/// A key fits an `i32`.
pub open spec fn key_ok(k: int) -> bool {
    i32::MIN <= k <= i32::MAX
}

/// The state after event `e`.
pub open spec fn apply_spec(u: UnitData, e: RPxToneEvent) -> UnitData {
    match e.kind {
        EventKind::On => UnitData {
            key_now: (u.key_start + u.key_margin) as i32,
            key_start: (u.key_start + u.key_margin) as i64,
            key_margin: 0,
            on: Some(UnitOnData { start: e.clock, length: e.length_spec() }),
            ..u
        },
        EventKind::Key => UnitData {
            key_start: u.key_now as i64,
            key_margin: (e.value - u.key_now) as i64,
            porta_start: e.clock,
            ..u
        },
        EventKind::Velocity => UnitData {
            velocity: UnitInterval { level: clamp(e.value as int, 0, 128) as i32 },
            ..u
        },
        EventKind::Volume => UnitData {
            volume: UnitInterval { level: clamp(e.value as int, 0, 128) as i32 },
            ..u
        },
        EventKind::VoiceNo => UnitData { woice: e.value as u8, ..u },
        EventKind::Tuning => UnitData { tuning: TuningValue { bits: tuning_clamp(e.value as u32) }, ..u },
        EventKind::Portament => UnitData { porta: e.length_spec(), ..u },
        EventKind::PanVolume => UnitData {
            pan_volume: PanValue { sixty_fourths: pan_of_disk(e.value) as i32 },
            ..u
        },
        _ => u,
    }
}

/// The unit states after events `evs` in order, each event changing the unit it names.
pub open spec fn apply_all(units: Seq<UnitData>, evs: Seq<RPxToneEvent>) -> Seq<UnitData>
    decreases evs.len(),
{
    if evs.len() == 0 {
        units
    } else {
        let us = apply_all(units, evs.drop_last());
        let e = evs.last();
        if (e.unit_no as int) < us.len() {
            us.update(e.unit_no as int, apply_spec(us[e.unit_no as int], e))
        } else {
            us
        }
    }
}

/// The left and right weights of a pan position, in 64ths.
pub open spec fn pan_weights_spec(sixty_fourths: int) -> (int, int) {
    (clamp(64 - sixty_fourths, 0, 64), clamp(64 + sixty_fourths, 0, 64))
}

/// A unit before any event.
pub open spec fn initial_unit() -> UnitData {
    UnitData {
        on: None,
        key_now: DEFAULT_KEY,
        key_start: DEFAULT_KEY as i64,
        key_margin: 0,
        volume: UnitInterval { level: DEFAULT_LEVEL },
        velocity: UnitInterval { level: DEFAULT_LEVEL },
        woice: 0,
        tuning: TuningValue { bits: TUNING_ONE_BITS },
        porta: 0,
        porta_start: 0,
        pan_volume: PanValue { sixty_fourths: 0 },
    }
}

impl UnitData {
    pub open spec fn wf(&self) -> bool {
        &&& key_ok(self.key_start as int)
        &&& key_ok(self.key_start + self.key_margin)
        &&& self.volume.wf()
        &&& self.velocity.wf()
        &&& self.tuning.wf()
        &&& self.pan_volume.wf()
    }

    /// A unit before any event: default key, levels of 104/128, neutral tuning, centred.
    pub fn new() -> (r: UnitData)
        ensures
            r.wf(),
            r == initial_unit(),
    {
        UnitData {
            on: None,
            key_now: DEFAULT_KEY,
            key_start: DEFAULT_KEY as i64,
            key_margin: 0,
            volume: UnitInterval::new(DEFAULT_LEVEL),
            velocity: UnitInterval::new(DEFAULT_LEVEL),
            woice: 0,
            tuning: TuningValue::one(),
            porta: 0,
            porta_start: 0,
            pan_volume: PanValue::center(),
        }
    }

    /// Applies event `e` to this unit: a note starts from where the last glide was headed,
    /// a key change starts a glide from the key sounding now, the other kinds set their
    /// field.
    pub fn apply(&mut self, e: &RPxToneEvent)
        requires
            old(self).wf(),
        ensures
            final(self).wf(),
            *final(self) == apply_spec(*old(self), *e),
    {
        match e.kind {
            EventKind::On => {
                let target = self.key_start + self.key_margin;
                self.key_now = target as i32;
                self.key_start = target;
                self.key_margin = 0;
                self.on = Some(UnitOnData { start: e.clock, length: e.length() });
            },
            EventKind::Key => {
                self.key_start = self.key_now as i64;
                self.key_margin = e.value as i64 - self.key_now as i64;
                self.porta_start = e.clock;
            },
            EventKind::Velocity => {
                self.velocity = e.level();
            },
            EventKind::Volume => {
                self.volume = e.level();
            },
            EventKind::VoiceNo => {
                self.woice = e.value as u8;
            },
            EventKind::Tuning => {
                self.tuning = e.tuning_value();
            },
            EventKind::Portament => {
                self.porta = e.length();
            },
            EventKind::PanVolume => {
                self.pan_volume = e.pan_value();
            },
            _ => {},
        }
    }

    /// The key the unit's glide has reached at `clock`.
    pub fn key_at(&self, clock: u32) -> (r: i32)
        requires
            self.wf(),
        ensures
            r == glide_key(self.key_start as int, self.key_margin as int, self.porta, self.porta_start, clock),
    {
        let elapsed: u32 = if clock >= self.porta_start {
            clock - self.porta_start
        } else {
            0
        };
        if self.porta == 0 || self.key_margin == 0 || elapsed >= self.porta {
            return (self.key_start + self.key_margin) as i32;
        }
        let magnitude: u64 = if self.key_margin > 0 {
            self.key_margin as u64
        } else {
            (-self.key_margin) as u64
        };
        proof {
            assert(magnitude <= 0x1_0000_0000);
            assert(magnitude * (elapsed as u64) <= 0x1_0000_0000 * 0xffff_ffff) by (nonlinear_arith)
                requires
                    magnitude <= 0x1_0000_0000,
                    elapsed <= 0xffff_ffff,
            ;
            let m = magnitude as int;
            let el = elapsed as int;
            let po = self.porta as int;
            assert(m * el / po <= m) by (nonlinear_arith)
                requires
                    0 <= el < po,
                    m >= 0,
            ;
        }
        let part: u64 = magnitude * elapsed as u64 / self.porta as u64;
        if self.key_margin > 0 {
            (self.key_start + part as i64) as i32
        } else {
            (self.key_start - part as i64) as i32
        }
    }

    /// Moves the sounding key to where the glide is at `clock`.
    pub fn update_key(&mut self, clock: u32)
        requires
            old(self).wf(),
        ensures
            final(self).wf(),
            *final(self) == (UnitData {
                key_now: glide_key(
                    old(self).key_start as int,
                    old(self).key_margin as int,
                    old(self).porta,
                    old(self).porta_start,
                    clock,
                ) as i32,
                ..*old(self)
            }),
    {
        self.key_now = self.key_at(clock);
    }

    /// Ends the note once `clock` is past its end plus `release` ticks, and a note of length
    /// zero at once (it makes no sound); returns whether a note is still playing.
    pub fn end_note_if_over(&mut self, clock: u32, release: u32) -> (r: bool)
        ensures
            match old(self).on {
                None => !r && *final(self) == *old(self),
                Some(on) => if on.length == 0 || clock as int > on.start + on.length + release {
                    !r && *final(self) == (UnitData { on: None, ..*old(self) })
                } else {
                    r && *final(self) == *old(self)
                },
            },
    {
        match self.on {
            None => false,
            Some(on) => {
                if on.length == 0 || clock as u64 > on.start as u64 + on.length as u64 + release as u64 {
                    self.on = None;
                    false
                } else {
                    true
                }
            },
        }
    }
}

/// The left and right channel weights, in 64ths, of pan position `pan`.
pub fn pan_weights(pan: PanValue) -> (r: (u32, u32))
    requires
        pan.wf(),
    ensures
        r.0 == pan_weights_spec(pan.sixty_fourths as int).0,
        r.1 == pan_weights_spec(pan.sixty_fourths as int).1,
{
    let s = pan.sixty_fourths;
    let left: i32 = if 64 - s > 64 {
        64
    } else if 64 - s < 0 {
        0
    } else {
        64 - s
    };
    let right: i32 = if 64 + s > 64 {
        64
    } else if 64 + s < 0 {
        0
    } else {
        64 + s
    };
    (left as u32, right as u32)
}

/// A centred pan weighs both channels fully; a pan fully left silences the right channel
/// (and fully right the left one).
pub proof fn lemma_pan_law()
    ensures
        pan_weights_spec(0) == (64int, 64int),
        pan_weights_spec(-64).1 == 0,
        pan_weights_spec(64).0 == 0,
{
}

/// Without a glide time, a key change is reached at once.
pub proof fn lemma_no_porta_is_instant(start: int, margin: int, porta_start: u32, clock: u32)
    ensures
        glide_key(start, margin, 0, porta_start, clock) == start + margin,
{
}

/// An upward glide never goes down as the clock advances, and stays between its start and
/// its target.
pub proof fn lemma_glide_monotonic(start: int, margin: int, porta: u32, porta_start: u32, c1: u32, c2: u32)
    requires
        margin >= 0,
        c1 <= c2,
    ensures
        glide_key(start, margin, porta, porta_start, c1) <= glide_key(start, margin, porta, porta_start, c2),
        start <= glide_key(start, margin, porta, porta_start, c1) <= start + margin,
{
    let e1: int = if c1 >= porta_start { c1 - porta_start } else { 0 };
    let e2: int = if c2 >= porta_start { c2 - porta_start } else { 0 };
    assert(e1 <= e2);
    if porta > 0 && margin > 0 {
        let p = porta as int;
        if e1 < p {
            assert(margin * e1 / p <= margin) by (nonlinear_arith)
                requires
                    0 <= e1 < p,
                    margin > 0,
            ;
            assert(0 <= margin * e1 / p) by (nonlinear_arith)
                requires
                    0 <= e1,
                    p > 0,
                    margin > 0,
            ;
            if e2 < p {
                assert(margin * e1 / p <= margin * e2 / p) by (nonlinear_arith)
                    requires
                        0 <= e1 <= e2,
                        p > 0,
                        margin > 0,
                ;
            }
        }
    }
}

/// The sampler's sequencing state: output format, frames written, the next event to
/// apply, and the state of every unit.
#[derive(Debug)]
pub struct RPxToneMoo {
    pub channels: u8,
    pub sample_rate: u32,
    pub smp: u32,
    pub next_event: usize,
    pub units: Vec<UnitData>,
    pub prepared: bool,
}

/// Whether `to` is the index of the first event at or after `from` whose clock is past
/// `clock` (the length of `evs` when there is none), all events in between being due.
pub open spec fn events_due_end(evs: Seq<RPxToneEvent>, from: int, clock: u32, to: int) -> bool {
    &&& from <= to <= evs.len()
    &&& forall|j: int| from <= j < to ==> (#[trigger] evs[j]).clock <= clock
    &&& to < evs.len() ==> evs[to].clock > clock
}

impl RPxToneMoo {
    pub open spec fn wf(&self) -> bool {
        &&& self.units@.len() == UNIT_SLOTS
        &&& forall|i: int| 0 <= i < self.units@.len() ==> (#[trigger] self.units@[i]).wf()
    }

    /// A sampler for stereo at 44100 Hz, not yet prepared.
    pub fn new() -> (r: RPxToneMoo)
        ensures
            r.wf(),
            r.channels == 2 && r.sample_rate == 44100 && !r.prepared,
            r.smp == 0 && r.next_event == 0,
            forall|i: int| 0 <= i < UNIT_SLOTS ==> #[trigger] r.units@[i] == initial_unit(),
    {
        let mut units: Vec<UnitData> = Vec::new();
        let mut i: usize = 0;
        while i < UNIT_SLOTS
            invariant
                i <= UNIT_SLOTS,
                units@.len() == i,
                forall|k: int| 0 <= k < i ==> (#[trigger] units@[k]).wf(),
                forall|k: int| 0 <= k < i ==> #[trigger] units@[k] == initial_unit(),
            decreases UNIT_SLOTS - i,
        {
            units.push(UnitData::new());
            i = i + 1;
        }
        RPxToneMoo { channels: 2, sample_rate: 44100, smp: 0, next_event: 0, units, prepared: false }
    }

    /// Sets the output format: 1 or 2 channels, at any sample rate.
    pub fn set_audio_format(&mut self, channels: u8, sample_rate: u32) -> (r: Result<(), RPxToneMooError>)
        ensures
            r is Ok <==> (channels == 1 || channels == 2),
            r is Ok ==> *final(self) == (RPxToneMoo { channels, sample_rate, ..*old(self) }),
            r is Err ==> *final(self) == *old(self) && r == Err::<(), _>(RPxToneMooError::InvalidFormat),
    {
        if !(channels == 1 || channels == 2) {
            return Err(RPxToneMooError::InvalidFormat);
        }
        self.channels = channels;
        self.sample_rate = sample_rate;
        Ok(())
    }

    /// Rewinds to the start of the song with every unit in its initial state.
    pub fn prepare_sample(&mut self)
        ensures
            final(self).wf(),
            final(self).prepared,
            final(self).smp == 0,
            final(self).next_event == 0,
            final(self).channels == old(self).channels,
            final(self).sample_rate == old(self).sample_rate,
            forall|i: int| 0 <= i < UNIT_SLOTS ==> #[trigger] final(self).units@[i] == initial_unit(),
    {
        let fresh = RPxToneMoo::new();
        self.units = fresh.units;
        self.smp = 0;
        self.next_event = 0;
        self.prepared = true;
        proof {
            assert forall|i: int| 0 <= i < UNIT_SLOTS implies (#[trigger] self.units@[i]).wf() by {}
        }
    }

    /// Applies, in order, every event from the cursor on whose clock is at most `clock`,
    /// and moves the cursor past them.
    pub fn apply_events_until(&mut self, list: &RPxToneEventList, clock: u32) -> (r: Result<(), RPxToneMooError>)
        requires
            old(self).wf(),
            list.wf(),
        ensures
            final(self).wf(),
            r is Ok <==> old(self).prepared,
            r is Err ==> *final(self) == *old(self),
            r is Ok ==> {
                let evs = list.events@;
                let from = if old(self).next_event <= evs.len() { old(self).next_event as int } else { evs.len() as int };
                &&& events_due_end(evs, from, clock, final(self).next_event as int)
                &&& final(self).units@ == apply_all(old(self).units@, evs.subrange(from, final(self).next_event as int))
                &&& final(self).channels == old(self).channels
                &&& final(self).sample_rate == old(self).sample_rate
                &&& final(self).smp == old(self).smp
                &&& final(self).prepared
            },
    {
        if !self.prepared {
            return Err(RPxToneMooError::NotPrepared);
        }
        let n = list.events.len();
        let from: usize = if self.next_event <= n {
            self.next_event
        } else {
            n
        };
        let ghost start_units = self.units@;
        let mut i: usize = from;
        proof {
            assert(list.events@.subrange(from as int, from as int) =~= Seq::<RPxToneEvent>::empty());
        }
        while i < n && list.events[i].clock <= clock
            invariant
                n == list.events@.len(),
                from <= i <= n,
                self.wf(),
                self.prepared,
                self.units@ == apply_all(start_units, list.events@.subrange(from as int, i as int)),
                forall|j: int| from <= j < i ==> (#[trigger] list.events@[j]).clock <= clock,
                self.channels == old(self).channels,
                self.sample_rate == old(self).sample_rate,
                self.smp == old(self).smp,
                start_units == old(self).units@,
            decreases n - i,
        {
            let e = list.events[i];
            let u = e.unit_no as usize;
            let mut d = self.units[u];
            d.apply(&e);
            self.units.set(u, d);
            proof {
                let s = list.events@.subrange(from as int, i + 1);
                assert(s.drop_last() =~= list.events@.subrange(from as int, i as int));
                assert(s.last() == e);
                assert forall|k: int| 0 <= k < self.units@.len() implies (#[trigger] self.units@[k]).wf() by {}
            }
            i = i + 1;
        }
        self.next_event = i;
        Ok(())
    }
}

/// With no events, applying events leaves every unit as it was: nothing ever sounds.
pub proof fn lemma_no_events_no_change(units: Seq<UnitData>, evs: Seq<RPxToneEvent>)
    requires
        evs.len() == 0,
    ensures
        apply_all(units, evs) == units,
{
}

/// Events of one clock in play order are applied before any event of a later clock, so an
/// event at clock zero is applied at the first chunk boundary, before any frame.
pub proof fn lemma_due_events_prefix(evs: Seq<RPxToneEvent>, clock: u32, to: int)
    requires
        sorted(evs),
        events_due_end(evs, 0, clock, to),
    ensures
        forall|j: int| 0 <= j < evs.len() && evs[j].clock <= clock ==> j < to,
{
    assert forall|j: int| 0 <= j < evs.len() && evs[j].clock <= clock implies j < to by {
        if j >= to {
            assert(to < evs.len());
            if j > to {
                assert(crate::event::key_le(evs[to], evs[j]));
            }
        }
    }
}

} // verus!

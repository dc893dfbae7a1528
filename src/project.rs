//! The project: master settings, units, events and instruments.
use vstd::prelude::*;
use crate::event::{RPxToneEventList, rehome};
use crate::woice::RPxToneWoice;
use vstd::utf8::encode_utf8;

verus! {

/// Bit pattern of the `f32` 120.0, the default tempo in beats per minute.
pub const DEFAULT_TEMPO_BITS: u32 = 0x42f0_0000;

/// The longest unit name, in bytes of UTF-8.
pub const UNIT_NAME_MAX: u32 = 16;

/// A text (project name or comment, unit name) was refused.
#[derive(Debug, Clone, Copy, PartialEq, Eq, Structural)]
pub struct InvalidText;

/// One channel of the project, driven by the events that name its index.
#[derive(Debug)]
pub struct RPxToneUnit {
    pub selected: bool,
    pub muted: bool,
    pub name: String,
}

/// A unit's editor flags and name.
pub trait Unit {
    spec fn selected_spec(&self) -> bool;

    spec fn muted_spec(&self) -> bool;

    spec fn name_spec(&self) -> Seq<char>;

    fn selected(&self) -> (r: bool)
        ensures
            r == self.selected_spec(),
    ;

    fn set_selected(&mut self, selected: bool)
        ensures
            final(self).selected_spec() == selected,
            final(self).muted_spec() == old(self).muted_spec(),
            final(self).name_spec() == old(self).name_spec(),
    ;

    fn muted(&self) -> (r: bool)
        ensures
            r == self.muted_spec(),
    ;

    fn set_muted(&mut self, muted: bool)
        ensures
            final(self).muted_spec() == muted,
            final(self).selected_spec() == old(self).selected_spec(),
            final(self).name_spec() == old(self).name_spec(),
    ;

    fn name(&self) -> (r: String)
        ensures
            r@ == self.name_spec(),
    ;

    /// Renames the unit; a name longer than 16 bytes of UTF-8 is refused.
    fn set_name(&mut self, name: String) -> (r: Result<(), InvalidText>)
        ensures
            r is Ok <==> encode_utf8(name@).len() <= UNIT_NAME_MAX,
            r is Ok ==> final(self).name_spec() == name@,
            r is Err ==> final(self).name_spec() == old(self).name_spec(),
            final(self).selected_spec() == old(self).selected_spec(),
            final(self).muted_spec() == old(self).muted_spec(),
    ;
}

impl Unit for RPxToneUnit {
    open spec fn selected_spec(&self) -> bool {
        self.selected
    }

    open spec fn muted_spec(&self) -> bool {
        self.muted
    }

    open spec fn name_spec(&self) -> Seq<char> {
        self.name@
    }

    fn selected(&self) -> (r: bool) {
        self.selected
    }

    fn set_selected(&mut self, selected: bool) {
        self.selected = selected;
    }

    fn muted(&self) -> (r: bool) {
        self.muted
    }

    fn set_muted(&mut self, muted: bool) {
        self.muted = muted;
    }

    fn name(&self) -> (r: String) {
        self.name.clone()
    }

    fn set_name(&mut self, name: String) -> (r: Result<(), InvalidText>) {
        let text: &str = name.as_str();
        let bytes: usize = text.as_bytes().len();
        proof {
            assert(text@ == name@);
        }
        if bytes > UNIT_NAME_MAX as usize {
            return Err(InvalidText);
        }
        self.name = name;
        Ok(())
    }
}

/// A whole project.
#[derive(Debug)]
pub struct RPxTone {
    pub beat_num: i32,
    /// Bit pattern of the `f32` tempo in beats per minute.
    pub beat_tempo_bits: u32,
    pub beat_clock: i32,
    pub num_measures: i32,
    pub repeat_measure: i32,
    pub last_measure: i32,
    pub name: String,
    pub comment: String,
    pub units: Vec<RPxToneUnit>,
    pub event_list: RPxToneEventList,
    pub woices: Vec<RPxToneWoice>,
}

impl RPxTone {
    pub open spec fn wf(&self) -> bool {
        self.event_list.wf()
    }

    /// An empty project: four beats of 480 ticks a measure at 120 beats per minute, one
    /// measure.
    pub fn new() -> (r: RPxTone)
        ensures
            r.wf(),
            r.beat_num == 4,
            r.beat_tempo_bits == DEFAULT_TEMPO_BITS,
            r.beat_clock == 480,
            r.num_measures == 1,
            r.repeat_measure == 0,
            r.last_measure == 0,
            r.name@.len() == 0,
            r.comment@.len() == 0,
            r.units@.len() == 0,
            r.event_list.events@.len() == 0,
            r.woices@.len() == 0,
    {
        RPxTone {
            beat_num: 4,
            beat_tempo_bits: DEFAULT_TEMPO_BITS,
            beat_clock: 480,
            num_measures: 1,
            repeat_measure: 0,
            last_measure: 0,
            name: String::new(),
            comment: String::new(),
            units: Vec::new(),
            event_list: RPxToneEventList::new(),
            woices: Vec::new(),
        }
    }

    pub fn beat_num(&self) -> (r: i32)
        ensures
            r == self.beat_num,
    {
        self.beat_num
    }

    pub fn set_beat_num(&mut self, beat_num: i32)
        ensures
            *final(self) == (RPxTone { beat_num, ..*old(self) }),
    {
        self.beat_num = beat_num;
    }

    pub fn beat_tempo_bits(&self) -> (r: u32)
        ensures
            r == self.beat_tempo_bits,
    {
        self.beat_tempo_bits
    }

    pub fn set_beat_tempo_bits(&mut self, beat_tempo_bits: u32)
        ensures
            *final(self) == (RPxTone { beat_tempo_bits, ..*old(self) }),
    {
        self.beat_tempo_bits = beat_tempo_bits;
    }

    pub fn beat_clock(&self) -> (r: i32)
        ensures
            r == self.beat_clock,
    {
        self.beat_clock
    }

    pub fn set_beat_clock(&mut self, beat_clock: i32)
        ensures
            *final(self) == (RPxTone { beat_clock, ..*old(self) }),
    {
        self.beat_clock = beat_clock;
    }

    pub fn num_measures(&self) -> (r: i32)
        ensures
            r == self.num_measures,
    {
        self.num_measures
    }

    pub fn set_num_measures(&mut self, num_measures: i32)
        ensures
            *final(self) == (RPxTone { num_measures, ..*old(self) }),
    {
        self.num_measures = num_measures;
    }

    pub fn repeat_measure(&self) -> (r: i32)
        ensures
            r == self.repeat_measure,
    {
        self.repeat_measure
    }

    pub fn set_repeat_measure(&mut self, repeat_measure: i32)
        ensures
            *final(self) == (RPxTone { repeat_measure, ..*old(self) }),
    {
        self.repeat_measure = repeat_measure;
    }

    pub fn last_measure(&self) -> (r: i32)
        ensures
            r == self.last_measure,
    {
        self.last_measure
    }

    pub fn set_last_measure(&mut self, last_measure: i32)
        ensures
            *final(self) == (RPxTone { last_measure, ..*old(self) }),
    {
        self.last_measure = last_measure;
    }

    pub fn name(&self) -> (r: String)
        ensures
            r@ == self.name@,
    {
        self.name.clone()
    }

    /// Sets the project name; every name is accepted.
    pub fn set_name(&mut self, name: String) -> (r: Result<(), InvalidText>)
        ensures
            r is Ok,
            *final(self) == (RPxTone { name, ..*old(self) }),
    {
        self.name = name;
        Ok(())
    }

    pub fn comment(&self) -> (r: String)
        ensures
            r@ == self.comment@,
    {
        self.comment.clone()
    }

    /// Sets the project comment; every comment is accepted.
    pub fn set_comment(&mut self, comment: String) -> (r: Result<(), InvalidText>)
        ensures
            r is Ok,
            *final(self) == (RPxTone { comment, ..*old(self) }),
    {
        self.comment = comment;
        Ok(())
    }

    /// Appends an instrument and returns its index.
    pub fn add_woice(&mut self, woice: RPxToneWoice) -> (r: usize)
        ensures
            final(self).woices@ == old(self).woices@.push(woice),
            r == old(self).woices@.len(),
            final(self).units == old(self).units,
            final(self).event_list == old(self).event_list,
    {
        self.woices.push(woice);
        self.woices.len() - 1
    }

    /// Removes instrument `index`; false (and nothing changed) when there is none.
    pub fn remove_woice(&mut self, index: usize) -> (r: bool)
        ensures
            r == (index < old(self).woices@.len()),
            r ==> final(self).woices@ == old(self).woices@.remove(index as int),
            !r ==> final(self).woices@ == old(self).woices@,
            final(self).units == old(self).units,
            final(self).event_list == old(self).event_list,
    {
        if index >= self.woices.len() {
            return false;
        }
        self.woices.remove(index);
        true
    }

    /// Appends a unit named "new unit" and returns its index.
    pub fn add_new_unit(&mut self) -> (r: Option<usize>)
        ensures
            final(self).units@.len() == old(self).units@.len() + 1,
            r == Some((final(self).units@.len() - 1) as usize),
            forall|i: int| 0 <= i < old(self).units@.len() ==> final(self).units@[i] == old(self).units@[i],
            !final(self).units@.last().selected,
            !final(self).units@.last().muted,
            final(self).event_list == old(self).event_list,
    {
        let name = String::from_str("new unit");
        self.units.push(RPxToneUnit { selected: false, muted: false, name });
        Some(self.units.len() - 1)
    }

    /// Removes unit `index`, with the events that drive it; events of later units follow
    /// their unit down by one. Returns false (and changes nothing) when there is no such
    /// unit.
    pub fn remove_unit(&mut self, index: usize) -> (r: bool)
        requires
            old(self).wf(),
        ensures
            final(self).wf(),
            r == (index < old(self).units@.len()),
            r ==> final(self).units@ == old(self).units@.remove(index as int),
            r && index <= u8::MAX ==> final(self).event_list.events@ == rehome(
                old(self).event_list.events@,
                index as u8,
            ),
            r && index > u8::MAX ==> final(self).event_list.events@ == old(self).event_list.events@,
            !r ==> *final(self) == *old(self),
            r ==> *final(self) == (RPxTone {
                units: final(self).units,
                event_list: final(self).event_list,
                ..*old(self)
            }),
    {
        if index >= self.units.len() {
            return false;
        }
        self.units.remove(index);
        if index <= 255 {
            self.event_list.remove_unit_references(index as u8);
        }
        true
    }
}

} // verus!

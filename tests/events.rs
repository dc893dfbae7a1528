use pxtone::event::{
    AddEventError, BaseEvent, EventKind, EventKey, EventOn, PanValue, RPxToneEvent,
    RPxToneEventList, TuningValue, UnitInterval, TUNING_MAX_BITS,
};

#[test]
fn kind_codes() {
    for code in 0u8..=15 {
        assert_eq!(EventKind::from_u8(code).to_u8(), code);
    }
    assert_eq!(EventKind::from_u8(16), EventKind::Null);
    assert_eq!(EventKind::from_u8(1), EventKind::On);
    assert_eq!(EventKind::from_u8(15), EventKind::PanTime);
}

#[test]
fn tie_break_order() {
    let order = [
        EventKind::On,
        EventKind::Key,
        EventKind::PanVolume,
        EventKind::Velocity,
        EventKind::Volume,
        EventKind::Portament,
        EventKind::VoiceNo,
        EventKind::GroupNo,
        EventKind::Tuning,
        EventKind::PanTime,
        EventKind::BeatTempo,
    ];
    for w in order.windows(2) {
        assert!(w[0].priority() < w[1].priority());
    }
}

#[test]
fn add_keeps_play_order() {
    let mut list = RPxToneEventList::new();
    list.add(RPxToneEvent::new_on(0, 0, 480)).unwrap();
    list.add(RPxToneEvent::new_velocity(0, 0, UnitInterval::new(128))).unwrap();
    list.add(RPxToneEvent::new_voice_no(0, 0, 0)).unwrap();
    list.add(RPxToneEvent::new_key(0, 0, 24576)).unwrap();
    list.add(RPxToneEvent::new_key(240, 0, 24832)).unwrap();
    list.add(RPxToneEvent::new_porta(240, 0, 480)).unwrap();
    list.add(RPxToneEvent::new_volume(100, 1, UnitInterval::new(64))).unwrap();
    let kinds: Vec<(u32, EventKind)> = list.events.iter().map(|e| (e.clock, e.kind)).collect();
    assert_eq!(
        kinds,
        vec![
            (0, EventKind::On),
            (0, EventKind::Key),
            (0, EventKind::Velocity),
            (0, EventKind::VoiceNo),
            (100, EventKind::Volume),
            (240, EventKind::Key),
            (240, EventKind::Portament),
        ]
    );
}

#[test]
fn add_equal_keys_keeps_insertion_order() {
    let mut list = RPxToneEventList::new();
    list.add(RPxToneEvent::new_key(10, 0, 1)).unwrap();
    list.add(RPxToneEvent::new_key(10, 1, 2)).unwrap();
    list.add(RPxToneEvent::new_key(10, 2, 3)).unwrap();
    let units: Vec<u8> = list.events.iter().map(|e| e.unit_no).collect();
    assert_eq!(units, vec![0, 1, 2]);
}

#[test]
fn add_refuses_master_kinds() {
    let mut list = RPxToneEventList::new();
    let e = RPxToneEvent { clock: 0, unit_no: 0, kind: EventKind::BeatTempo, value: 1 };
    assert_eq!(list.add(e), Err(AddEventError {}));
    let n = RPxToneEvent { clock: 0, unit_no: 0, kind: EventKind::Null, value: 0 };
    assert_eq!(list.add(n), Err(AddEventError {}));
    assert_eq!(list.len(), 0);
}

#[test]
fn sort_events_orders_by_clock_then_kind() {
    let mut list = RPxToneEventList {
        events: vec![
            RPxToneEvent::new_key(50, 0, 1),
            RPxToneEvent::new_on(10, 0, 5),
            RPxToneEvent::new_volume(10, 0, UnitInterval::new(3)),
            RPxToneEvent::new_on(50, 0, 7),
        ],
    };
    list.sort_events();
    let got: Vec<(u32, EventKind)> = list.events.iter().map(|e| (e.clock, e.kind)).collect();
    assert_eq!(
        got,
        vec![(10, EventKind::On), (10, EventKind::Volume), (50, EventKind::On), (50, EventKind::Key)]
    );
}

#[test]
fn sort_events_is_stable_and_idempotent() {
    let mut list = RPxToneEventList {
        events: vec![
            RPxToneEvent::new_key(5, 2, 1),
            RPxToneEvent::new_key(5, 0, 2),
            RPxToneEvent::new_on(5, 1, 3),
            RPxToneEvent::new_key(5, 1, 3),
        ],
    };
    list.sort_events();
    let once: Vec<(EventKind, u8)> = list.events.iter().map(|e| (e.kind, e.unit_no)).collect();
    assert_eq!(once, vec![(EventKind::On, 1), (EventKind::Key, 2), (EventKind::Key, 0), (EventKind::Key, 1)]);
    list.sort_events();
    let twice: Vec<(EventKind, u8)> = list.events.iter().map(|e| (e.kind, e.unit_no)).collect();
    assert_eq!(once, twice);
}

#[test]
fn remove_unit_references_rehomes() {
    let mut list = RPxToneEventList::new();
    list.add(RPxToneEvent::new_on(0, 0, 1)).unwrap();
    list.add(RPxToneEvent::new_on(5, 1, 1)).unwrap();
    list.add(RPxToneEvent::new_on(9, 2, 1)).unwrap();
    list.remove_unit_references(1);
    let got: Vec<(u32, u8)> = list.events.iter().map(|e| (e.clock, e.unit_no)).collect();
    assert_eq!(got, vec![(0, 0), (9, 1)]);
}

#[test]
fn pan_disk_round_trip() {
    for v in 0..=128 {
        assert_eq!(PanValue::from_disk(v).to_disk(), v);
    }
    assert_eq!(PanValue::from_disk(0), PanValue::left());
    assert_eq!(PanValue::from_disk(64), PanValue::center());
    assert_eq!(PanValue::from_disk(128), PanValue::right());
    assert_eq!(PanValue::from_disk(500).sixty_fourths, 64);
    assert_eq!(PanValue::from_disk(-3).sixty_fourths, -64);
    assert_eq!(PanValue::new(-100).sixty_fourths, -64);
}

#[test]
fn level_disk_round_trip() {
    for v in 0..=128 {
        assert_eq!(UnitInterval::new(v).to_disk(), v);
    }
    assert_eq!(UnitInterval::new(300).level, 128);
    assert_eq!(UnitInterval::new(-1).level, 0);
}

#[test]
fn tuning_clamps_bit_patterns() {
    assert_eq!(TuningValue::from_bits(1.0f32.to_bits()).bits, 1.0f32.to_bits());
    assert_eq!(TuningValue::from_bits((-2.0f32).to_bits()).bits, 0);
    assert_eq!(TuningValue::from_bits(20.0f32.to_bits()).bits, TUNING_MAX_BITS);
    assert_eq!(f32::from_bits(TUNING_MAX_BITS), 9.99999f32);
    assert_eq!(TuningValue::from_bits((-0.0f32).to_bits()).bits, (-0.0f32).to_bits());
    assert_eq!(TuningValue::from_bits(0.0f32.to_bits()).bits, 0);
    assert!(f32::from_bits(TuningValue::from_bits(f32::NAN.to_bits()).bits).is_nan());
    let z = RPxToneEvent::new_tuning(0, 0, TuningValue::from_bits((-0.0f32).to_bits()));
    assert_eq!(z.value as u32, 0x8000_0000);
    let e = RPxToneEvent::new_tuning(0, 0, TuningValue::from_bits(2.5f32.to_bits()));
    assert_eq!(f32::from_bits(e.tuning_value().bits), 2.5);
}

#[test]
fn payload_accessors() {
    let mut e = RPxToneEvent::new_on(3, 4, 480);
    assert_eq!(e.length(), 480);
    e.set_length(u32::MAX);
    assert_eq!(e.length(), u32::MAX);
    e.set_clock(9);
    assert_eq!(e.clock(), 9);
    assert_eq!(e.unit_no(), 4);
    let k = RPxToneEvent::new_key(0, 0, -5);
    assert_eq!(k.key(), -5);
    let p = RPxToneEvent::new_pan_volume(0, 0, PanValue::left());
    assert_eq!(p.value, 0);
    assert_eq!(p.pan_value(), PanValue::left());
    let v = RPxToneEvent::new_velocity(0, 0, UnitInterval::new(128));
    assert_eq!(v.level().level, 128);
}

use pxtone::codec::v_w;
use pxtone::event::{EventKind, RPxToneEvent, UnitInterval};
use pxtone::io::{read_project, RPxToneIOError};
use pxtone::project::{RPxTone, Unit};
use pxtone::woice::{RPxTonePTVWaveType, RPxToneWoiceType};

fn block(out: &mut Vec<u8>, tag: &[u8; 8], payload: &[u8]) {
    out.extend_from_slice(tag);
    out.extend_from_slice(&(payload.len() as u32).to_le_bytes());
    out.extend_from_slice(payload);
}

fn master(beat_clock: i16, beat_num: i8, tempo: f32, repeat: i32, last: i32) -> Vec<u8> {
    let mut m = Vec::new();
    m.extend_from_slice(&beat_clock.to_le_bytes());
    m.push(beat_num as u8);
    m.extend_from_slice(&tempo.to_le_bytes());
    m.extend_from_slice(&repeat.to_le_bytes());
    m.extend_from_slice(&last.to_le_bytes());
    m
}

fn unit(index: u16, name: &str) -> Vec<u8> {
    let mut u = Vec::new();
    u.extend_from_slice(&index.to_le_bytes());
    u.extend_from_slice(&0u16.to_le_bytes());
    let mut n = [0u8; 16];
    n[..name.len()].copy_from_slice(name.as_bytes());
    u.extend_from_slice(&n);
    u
}

fn events(list: &[(u32, u8, u8, u32)]) -> Vec<u8> {
    let mut e = Vec::new();
    e.extend_from_slice(&(list.len() as u32).to_le_bytes());
    for &(delta, unit, kind, value) in list {
        e.extend(v_w(delta));
        e.push(unit);
        e.push(kind);
        e.extend(v_w(value));
    }
    e
}

fn ptv_overtone() -> Vec<u8> {
    let mut body = Vec::new();
    for v in [0u32, 0, 0, 1] {
        body.extend(v_w(v));
    }
    // basic key, volume, pan, tuning bits, voice flags, data flags
    for v in [17664u32, 128, 64, 1.0f32.to_bits(), 0, 1] {
        body.extend(v_w(v));
    }
    // overtone wave with one tone
    for v in [1u32, 1, 1, 128] {
        body.extend(v_w(v));
    }
    let mut p = Vec::new();
    p.extend_from_slice(&0u16.to_le_bytes());
    p.extend_from_slice(&0u16.to_le_bytes());
    p.extend_from_slice(&1.0f32.to_le_bytes());
    p.extend_from_slice(&((body.len() + 16) as u32).to_le_bytes());
    p.extend_from_slice(b"PTVOICE-");
    p.extend_from_slice(&20060111u32.to_le_bytes());
    p.extend_from_slice(&(body.len() as u32).to_le_bytes());
    p.extend(body);
    p
}

fn sample_file() -> Vec<u8> {
    let mut f = Vec::new();
    f.extend_from_slice(b"PTCOLLAGE-071119");
    f.extend_from_slice(&5u16.to_le_bytes());
    f.extend_from_slice(&0u16.to_le_bytes());
    block(&mut f, b"textNAME", b"song\0junk");
    block(&mut f, b"textCOMM", b"a comment");
    block(&mut f, b"MasterV5", &master(480, 4, 120.0, 0, 0));
    block(&mut f, b"num UNIT", &1u32.to_le_bytes());
    block(&mut f, b"assiUNIT", &unit(0, "lead"));
    block(&mut f, b"matePTV ", &ptv_overtone());
    block(&mut f, b"someJUNK", &[1, 2, 3]);
    block(
        &mut f,
        b"Event V5",
        &events(&[
            (0, 0, 12, 0),
            (0, 0, 2, 24576),
            (0, 0, 4, 128),
            (0, 0, 5, 128),
            (0, 0, 1, 480),
            (240, 0, 6, 480),
            (0, 0, 2, 24832),
            (0, 0, 0, 77),
            (4000, 0, 3, 0),
        ]),
    );
    block(&mut f, b"pxtoneND", &[]);
    f
}

#[test]
fn reads_a_project() {
    let p = read_project(&sample_file()).unwrap();
    assert_eq!(p.name, "song");
    assert_eq!(p.comment, "a comment");
    assert_eq!(p.beat_clock, 480);
    assert_eq!(p.beat_num, 4);
    assert_eq!(f32::from_bits(p.beat_tempo_bits), 120.0);
    assert_eq!(p.units.len(), 1);
    assert_eq!(p.units[0].name(), "lead");
    assert_eq!(p.woices.len(), 1);
    match &p.woices[0].woice_type {
        RPxToneWoiceType::PTV(ptv) => {
            assert_eq!(ptv.voices.len(), 1);
            let v = &ptv.voices[0];
            assert_eq!((v.basic_key, v.volume, v.pan), (17664, 128, 64));
            assert_eq!(f32::from_bits(v.tuning_bits), 1.0);
            match &v.wave {
                RPxTonePTVWaveType::Overtone(o) => {
                    assert_eq!(o.tones.len(), 1);
                    assert_eq!((o.tones[0].frequency, o.tones[0].amplitude), (1, 128));
                },
                _ => panic!("expected an overtone wave"),
            }
            assert!(v.envelope.is_none());
        },
        _ => panic!("expected a PTV instrument"),
    }
    let got: Vec<(u32, EventKind, i32)> =
        p.event_list.events.iter().map(|e| (e.clock, e.kind, e.value)).collect();
    assert_eq!(
        got,
        vec![
            (0, EventKind::On, 480),
            (0, EventKind::Key, 24576),
            (0, EventKind::Velocity, 128),
            (0, EventKind::Volume, 128),
            (0, EventKind::VoiceNo, 0),
            (240, EventKind::Key, 24832),
            (240, EventKind::Portament, 480),
            (4240, EventKind::PanVolume, 0),
        ]
    );
    // 4240 ticks at 1920 ticks a measure need three measures
    assert_eq!(p.num_measures, 3);
}

#[test]
fn events_are_in_clock_order_after_reading() {
    let p = read_project(&sample_file()).unwrap();
    for w in p.event_list.events.windows(2) {
        assert!(w[0].clock <= w[1].clock);
    }
}

#[test]
fn truncated_file_is_format_invalid() {
    let f = sample_file();
    let r = read_project(&f[..10]);
    assert!(matches!(r, Err(RPxToneIOError::UnexpectedEnd)));
    assert!(matches!(r, Err(ref e) if e.is_format_invalid()));
    for cut in [16, 20, 25, 40, f.len() - 1] {
        let r = read_project(&f[..cut]);
        assert!(matches!(r, Err(ref e) if e.is_format_invalid()), "cut at {cut}");
    }
}

#[test]
fn wrong_magic_is_incorrect_header() {
    let mut f = sample_file();
    f[3] = b'X';
    assert!(matches!(read_project(&f), Err(RPxToneIOError::IncorrectHeader)));
}

#[test]
fn anti_oper_is_rejected() {
    let mut f = Vec::new();
    f.extend_from_slice(b"PTCOLLAGE-071119");
    f.extend_from_slice(&[0, 0, 0, 0]);
    block(&mut f, b"antiOPER", &[]);
    block(&mut f, b"pxtoneND", &[]);
    assert!(matches!(read_project(&f), Err(RPxToneIOError::AntiOper)));
}

#[test]
fn bad_master_size_is_rejected() {
    let mut f = Vec::new();
    f.extend_from_slice(b"PTCOLLAGE-071119");
    f.extend_from_slice(&[0, 0, 0, 0]);
    block(&mut f, b"MasterV5", &[0; 14]);
    block(&mut f, b"pxtoneND", &[]);
    assert!(matches!(
        read_project(&f),
        Err(RPxToneIOError::IncorrectBlockSize { expected: 15, actual: 14, .. })
    ));
}

#[test]
fn unknown_unit_is_unresolved() {
    let mut f = Vec::new();
    f.extend_from_slice(b"PTCOLLAGE-071119");
    f.extend_from_slice(&[0, 0, 0, 0]);
    block(&mut f, b"Event V5", &events(&[(0, 3, 1, 10)]));
    block(&mut f, b"pxtoneND", &[]);
    assert!(matches!(read_project(&f), Err(RPxToneIOError::UnresolvedReference)));
}

#[test]
fn invalid_utf8_name_is_invalid_text() {
    let mut f = Vec::new();
    f.extend_from_slice(b"PTCOLLAGE-071119");
    f.extend_from_slice(&[0, 0, 0, 0]);
    block(&mut f, b"textNAME", &[0xff, 0xfe]);
    block(&mut f, b"pxtoneND", &[]);
    assert!(matches!(read_project(&f), Err(RPxToneIOError::InvalidText)));
}

#[test]
fn pcm_block_with_bad_format_is_refused() {
    let mut pcm = Vec::new();
    pcm.extend_from_slice(&0u16.to_le_bytes());
    pcm.extend_from_slice(&17664u16.to_le_bytes());
    pcm.extend_from_slice(&0u32.to_le_bytes());
    pcm.extend_from_slice(&3u16.to_le_bytes());
    pcm.extend_from_slice(&16u16.to_le_bytes());
    pcm.extend_from_slice(&44100u32.to_le_bytes());
    pcm.extend_from_slice(&1.0f32.to_le_bytes());
    pcm.extend_from_slice(&0u32.to_le_bytes());
    let mut f = Vec::new();
    f.extend_from_slice(b"PTCOLLAGE-071119");
    f.extend_from_slice(&[0, 0, 0, 0]);
    block(&mut f, b"matePCM ", &pcm);
    block(&mut f, b"pxtoneND", &[]);
    assert!(matches!(
        read_project(&f),
        Err(RPxToneIOError::InvalidPCMConfig { bits_per_sample: 16, channels: 3 })
    ));
}

#[test]
fn ogg_block_is_kept_undecoded() {
    let mut o = Vec::new();
    o.extend_from_slice(&0u16.to_le_bytes());
    o.extend_from_slice(&17664u16.to_le_bytes());
    o.extend_from_slice(&0u32.to_le_bytes());
    o.extend_from_slice(&1.0f32.to_le_bytes());
    o.extend_from_slice(&1u32.to_le_bytes());
    o.extend_from_slice(&44100u32.to_le_bytes());
    o.extend_from_slice(&10u32.to_le_bytes());
    o.extend_from_slice(&8u32.to_le_bytes());
    o.extend_from_slice(&[1, 2, 3, 4, 5, 6, 7, 8]);
    let mut f = Vec::new();
    f.extend_from_slice(b"PTCOLLAGE-071119");
    f.extend_from_slice(&[0, 0, 0, 0]);
    block(&mut f, b"mateOGGV", &o);
    block(&mut f, b"pxtoneND", &[]);
    let p = read_project(&f).unwrap();
    match &p.woices[0].woice_type {
        RPxToneWoiceType::OGGV(o) => {
            assert_eq!(o.voice.ogg_data, vec![1, 2, 3, 4, 5, 6, 7, 8]);
            assert_eq!(o.voice.sample_num, 10);
            assert!(o.voice.samples.is_empty());
        },
        _ => panic!("expected an Ogg instrument"),
    }
}

#[test]
fn read_write_read_keeps_the_project() {
    let p = read_project(&sample_file()).unwrap();
    let bytes = p.write_bytes().unwrap();
    let q = read_project(&bytes).unwrap();
    assert_eq!(q.name, p.name);
    assert_eq!(q.comment, p.comment);
    assert_eq!(q.beat_num, p.beat_num);
    assert_eq!(q.beat_clock, p.beat_clock);
    assert_eq!(q.beat_tempo_bits, p.beat_tempo_bits);
    assert_eq!(q.num_measures, p.num_measures);
    assert_eq!(q.repeat_measure, p.repeat_measure);
    assert_eq!(q.last_measure, p.last_measure);
    assert_eq!(q.event_list.events, p.event_list.events);
    assert_eq!(q.units.len(), p.units.len());
    assert_eq!(q.units[0].name, p.units[0].name);
    match (&q.woices[0].woice_type, &p.woices[0].woice_type) {
        (RPxToneWoiceType::PTV(a), RPxToneWoiceType::PTV(b)) => {
            assert_eq!(a.voices.len(), b.voices.len());
            assert_eq!(a.voices[0].basic_key, b.voices[0].basic_key);
        },
        _ => panic!("expected PTV instruments"),
    }
    assert_eq!(q.woices.len(), p.woices.len());
    assert_eq!(q.write_bytes().unwrap(), bytes);
}

#[test]
fn read_bytes_keeps_old_project_on_failure() {
    let mut p = RPxTone::new();
    p.name = String::from("kept");
    assert!(p.read_bytes(&[1, 2, 3]).is_err());
    assert_eq!(p.name, "kept");
    p.read_bytes(&sample_file()).unwrap();
    assert_eq!(p.name, "song");
}

#[test]
fn new_project_defaults() {
    let p = RPxTone::new();
    assert_eq!(p.beat_num, 4);
    assert_eq!(p.beat_clock, 480);
    assert_eq!(f32::from_bits(p.beat_tempo_bits), 120.0);
    assert_eq!(p.num_measures, 1);
    assert!(p.event_list.events.is_empty());
}

#[test]
fn removing_a_unit_scrubs_its_events() {
    let mut p = RPxTone::new();
    p.add_new_unit();
    p.add_new_unit();
    p.event_list.add(RPxToneEvent::new_on(0, 0, 10)).unwrap();
    p.event_list.add(RPxToneEvent::new_volume(5, 1, UnitInterval::new(3))).unwrap();
    assert!(p.remove_unit(0));
    assert_eq!(p.units.len(), 1);
    assert_eq!(p.event_list.events.len(), 1);
    assert_eq!(p.event_list.events[0].unit_no, 0);
    assert_eq!(p.event_list.events[0].kind, EventKind::Volume);
    assert!(!p.remove_unit(5));
}

#[test]
fn unit_names_are_limited_to_sixteen_bytes() {
    let mut p = RPxTone::new();
    p.add_new_unit();
    let u = &mut p.units[0];
    assert_eq!(u.name(), "new unit");
    assert!(u.set_name(String::from("sixteen chars ok")).is_ok());
    assert_eq!(u.name(), "sixteen chars ok");
    assert!(u.set_name(String::from("seventeen chars!!")).is_err());
    assert_eq!(u.name(), "sixteen chars ok");
    assert!(u.set_name(String::from("ééééééééé")).is_err());
    u.set_muted(true);
    assert!(u.muted());
    assert!(!u.selected());
}

#[test]
fn master_accessors() {
    let mut p = RPxTone::new();
    p.set_beat_num(3);
    p.set_beat_clock(96);
    p.set_beat_tempo_bits(90.0f32.to_bits());
    p.set_repeat_measure(2);
    assert_eq!(p.beat_num(), 3);
    assert_eq!(p.beat_clock(), 96);
    assert_eq!(f32::from_bits(p.beat_tempo_bits()), 90.0);
    assert_eq!(p.repeat_measure(), 2);
    assert!(p.set_name(String::from("x")).is_ok());
    assert_eq!(p.name(), "x");
}

#[test]
fn empty_project_writes_the_fixed_blocks() {
    let p = RPxTone::new();
    let bytes = p.write_bytes().unwrap();
    assert_eq!(bytes.len(), 20 + 12 + 12 + 27 + 16 + 16 + 12);
    assert_eq!(&bytes[..16], b"PTCOLLAGE-071119");
    assert_eq!(&bytes[20..28], b"textNAME");
    assert_eq!(&bytes[44..52], b"MasterV5");
    assert_eq!(&bytes[56..58], &480i16.to_le_bytes());
    assert_eq!(bytes[58], 4);
    assert_eq!(&bytes[bytes.len() - 12..bytes.len() - 4], b"pxtoneND");
    let q = read_project(&bytes).unwrap();
    assert_eq!(q.beat_clock, 480);
    assert_eq!(q.num_measures, 1);
    assert!(q.units.is_empty());
    assert!(q.event_list.events.is_empty());
}

#[test]
fn writer_refuses_an_unfit_master() {
    let mut p = RPxTone::new();
    p.beat_num = 0;
    assert!(matches!(p.write_bytes(), Err(RPxToneIOError::InvalidMaster)));
}

#[test]
fn master_level_events_apply_to_the_project() {
    let mut f = Vec::new();
    f.extend_from_slice(b"PTCOLLAGE-071119");
    f.extend_from_slice(&[0, 0, 0, 0]);
    block(&mut f, b"MasterV5", &master(480, 4, 120.0, 0, 0));
    block(&mut f, b"assiUNIT", &unit(0, "a"));
    block(
        &mut f,
        b"Event V5",
        &events(&[(0, 0, 8, 150.0f32.to_bits()), (0, 0, 9, 3), (3840, 0, 10, 0), (0, 0, 1, 10)]),
    );
    block(&mut f, b"pxtoneND", &[]);
    let p = read_project(&f).unwrap();
    assert_eq!(f32::from_bits(p.beat_tempo_bits), 150.0);
    assert_eq!(p.beat_num, 3);
    // 3840 ticks at 3 beats of 480 ticks a measure is measure 2
    assert_eq!(p.repeat_measure, 2);
    assert_eq!(p.num_measures, 3);
    let kinds: Vec<EventKind> = p.event_list.events.iter().map(|e| e.kind).collect();
    assert_eq!(kinds, vec![EventKind::BeatTempo, EventKind::BeatNum, EventKind::On, EventKind::Repeat]);
}

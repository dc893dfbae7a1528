use pxtone::error::Error;
use pxtone::event::{PanValue, RPxToneEvent, RPxToneEventList, UnitInterval};
use pxtone::moo::{pan_weights, RPxToneMoo, RPxToneMooError, UnitData, DEFAULT_KEY};
use pxtone::woice::{
    first_channel_of, PTNWaveType, RPxTonePTVCoordinatePoint, RPxTonePTVCoordinateWave, RPxToneVoiceOGGV, RPxToneVoicePCM, RPxToneVoicePCMError,
};

fn note_list() -> RPxToneEventList {
    let mut list = RPxToneEventList::new();
    list.add(RPxToneEvent::new_voice_no(0, 0, 0)).unwrap();
    list.add(RPxToneEvent::new_key(0, 0, 24576)).unwrap();
    list.add(RPxToneEvent::new_velocity(0, 0, UnitInterval::new(128))).unwrap();
    list.add(RPxToneEvent::new_volume(0, 0, UnitInterval::new(128))).unwrap();
    list.add(RPxToneEvent::new_on(0, 0, 480)).unwrap();
    list.add(RPxToneEvent::new_porta(240, 0, 480)).unwrap();
    list.add(RPxToneEvent::new_key(240, 0, 24832)).unwrap();
    list
}

#[test]
fn clock_zero_events_apply_before_first_frame() {
    let list = note_list();
    let mut moo = RPxToneMoo::new();
    moo.prepare_sample();
    moo.apply_events_until(&list, 0).unwrap();
    assert_eq!(moo.next_event, 5);
    let u = &moo.units[0];
    assert!(u.on.is_some());
    assert_eq!(u.velocity.level, 128);
    assert_eq!(u.volume.level, 128);
    assert_eq!(u.key_start + u.key_margin, 24576);
}

#[test]
fn sampling_before_prepare_is_refused() {
    let list = note_list();
    let mut moo = RPxToneMoo::new();
    assert_eq!(moo.apply_events_until(&list, 0), Err(RPxToneMooError::NotPrepared));
}

#[test]
fn audio_format_must_be_mono_or_stereo() {
    let mut moo = RPxToneMoo::new();
    assert_eq!(moo.set_audio_format(3, 44100), Err(RPxToneMooError::InvalidFormat));
    assert_eq!(moo.set_audio_format(2, 0), Ok(()));
    assert_eq!(moo.sample_rate, 0);
    assert_eq!(moo.set_audio_format(1, 22050), Ok(()));
    assert_eq!((moo.channels, moo.sample_rate), (1, 22050));
}

#[test]
fn portamento_glides_one_semitone_over_a_beat() {
    let list = note_list();
    let mut moo = RPxToneMoo::new();
    moo.prepare_sample();
    moo.apply_events_until(&list, 240).unwrap();
    let u = moo.units[0];
    assert_eq!(u.key_at(240), 24576);
    assert_eq!(u.key_at(480), 24576 + 128);
    assert_eq!(u.key_at(720), 24832);
    assert_eq!(u.key_at(5000), 24832);
    let mut last = 0;
    for c in 240..=720 {
        let k = u.key_at(c);
        assert!(k >= last);
        last = k;
    }
}

#[test]
fn key_change_without_porta_is_instant() {
    let mut u = UnitData::new();
    u.apply(&RPxToneEvent::new_on(0, 0, 100));
    u.apply(&RPxToneEvent::new_key(10, 0, 30000));
    assert_eq!(u.key_at(10), 30000);
    u.update_key(10);
    assert_eq!(u.key_now, 30000);
}

#[test]
fn zero_length_note_ends_without_panic() {
    let mut u = UnitData::new();
    u.apply(&RPxToneEvent::new_on(50, 0, 0));
    assert!(!u.end_note_if_over(50, 0));
    assert!(u.on.is_none());
    let mut v = UnitData::new();
    v.apply(&RPxToneEvent::new_on(50, 0, 1));
    assert!(v.end_note_if_over(51, 0));
    assert!(!v.end_note_if_over(52, 0));
    assert_eq!(u.key_now, DEFAULT_KEY);
}

#[test]
fn note_with_max_length_does_not_overflow() {
    let mut u = UnitData::new();
    u.apply(&RPxToneEvent::new_on(u32::MAX, 0, u32::MAX));
    assert!(u.end_note_if_over(u32::MAX, u32::MAX));
}

#[test]
fn no_events_leave_units_idle() {
    let list = RPxToneEventList::new();
    let mut moo = RPxToneMoo::new();
    moo.prepare_sample();
    moo.apply_events_until(&list, u32::MAX).unwrap();
    assert!(moo.units.iter().all(|u| u.on.is_none()));
    assert_eq!(moo.units.len(), 256);
}

#[test]
fn pan_law() {
    assert_eq!(pan_weights(PanValue::center()), (64, 64));
    assert_eq!(pan_weights(PanValue::left()), (64, 0));
    assert_eq!(pan_weights(PanValue::right()), (0, 64));
    assert_eq!(pan_weights(PanValue::new(-32)), (64, 32));
}

#[test]
fn pan_event_sets_unit_pan() {
    let mut u = UnitData::new();
    u.apply(&RPxToneEvent::new_pan_volume(0, 0, PanValue::left()));
    assert_eq!(u.pan_volume, PanValue::left());
    assert_eq!(pan_weights(u.pan_volume).1, 0);
}

#[test]
fn pcm_voice_formats() {
    let ok = RPxToneVoicePCM::new(17664, 128, 64, 0, 2, 44100, 16, vec![0; 8], false, false, false);
    assert_eq!(ok.unwrap().sample_num, 2);
    let bad = RPxToneVoicePCM::new(17664, 128, 64, 0, 2, 44100, 12, vec![0; 8], false, false, false);
    assert_eq!(bad.unwrap_err(), RPxToneVoicePCMError::InvalidPCMConfig { bits_per_sample: 12, channels: 2 });
    let zero = RPxToneVoicePCM::new(17664, 128, 64, 0, 1, 44100, 0, vec![0; 8], false, false, false);
    assert!(zero.is_err());
}

#[test]
fn pcm_frames_past_end_are_silent_unless_looping() {
    let v = RPxToneVoicePCM::new(17664, 128, 64, 0, 1, 44100, 8, vec![1, 2, 3], false, false, false)
        .unwrap();
    assert_eq!(v.frame_at(2), Some(2));
    assert_eq!(v.frame_at(3), None);
    let l = RPxToneVoicePCM::new(17664, 128, 64, 0, 1, 44100, 8, vec![1, 2, 3], true, false, false)
        .unwrap();
    assert_eq!(l.frame_at(7), Some(1));
}

#[test]
fn pcm_raw_samples() {
    let v = RPxToneVoicePCM::new(17664, 128, 64, 0, 2, 44100, 16, vec![0x01, 0x80, 9, 9, 0xff, 0x7f, 9, 9], false, false, false)
        .unwrap();
    assert_eq!(v.raw_sample(0), -32767);
    assert_eq!(v.raw_sample(1), 32767);
    let b = RPxToneVoicePCM::new(17664, 128, 64, 0, 1, 44100, 8, vec![200, 7], false, false, false).unwrap();
    assert_eq!(b.raw_sample(1), 7);
}

#[test]
fn ogg_voice_starts_undecoded() {
    let v = RPxToneVoiceOGGV::new(17664, 128, 64, 0, 1, 44100, 0, vec![0; 64], false, false, false);
    assert!(v.samples.is_empty());
    assert_eq!(v.ogg_data, vec![0; 64]);
    assert_eq!(v.frame_at(0), None);
}

#[test]
fn ogg_voice_from_decoded_keeps_first_channel() {
    let v = RPxToneVoiceOGGV::from_decoded(17664, 128, 64, 0, 2, 44100, 2, vec![9], 2, 22050, &vec![1, -1, 2, -2], true, false, false);
    assert_eq!(v.samples, vec![1, 2]);
    assert_eq!(v.ogg_samples_per_second, 22050);
    assert_eq!(v.ogg_data, vec![9]);
}

#[test]
fn first_channel_of_stereo() {
    assert_eq!(first_channel_of(2, &vec![1, 2, 3, 4, 5]), vec![1, 3]);
    assert_eq!(first_channel_of(1, &vec![1, 2, 3]), vec![1, 2, 3]);
}

#[test]
fn coordinate_segments() {
    let w = RPxTonePTVCoordinateWave {
        resolution: 100,
        points: vec![
            RPxTonePTVCoordinatePoint::new(10, 5),
            RPxTonePTVCoordinatePoint::new(50, -5),
        ],
    };
    assert_eq!(w.segment(0), Some(((-50, -5), (10, 5))));
    assert_eq!(w.segment(9), Some(((-50, -5), (10, 5))));
    assert_eq!(w.segment(10), Some(((10, 5), (50, -5))));
    assert_eq!(w.segment(60), Some(((50, -5), (110, 5))));
    let empty = RPxTonePTVCoordinateWave { resolution: 100, points: vec![] };
    assert_eq!(empty.segment(3), None);
}

#[test]
fn engine_error_codes() {
    for n in 1..=27 {
        assert_eq!(Error::from_i32(n).unwrap().to_i32(), n);
    }
    assert!(Error::from_i32(0).is_none());
    assert_eq!(Error::from_i32(23).unwrap(), Error::TooMuchEvent);
    assert!(Error::from_raw(0).is_ok());
    assert_eq!(Error::from_raw(4), Err(Error::AntiOpreation));
}

#[test]
fn noise_shapes_by_code() {
    assert_eq!(PTNWaveType::from_u8(1), PTNWaveType::Sine);
    assert_eq!(PTNWaveType::from_u8(7), PTNWaveType::Tri);
    assert_eq!(PTNWaveType::from_u8(16), PTNWaveType::Saw8);
    assert_eq!(PTNWaveType::from_u8(0), PTNWaveType::Off);
    assert_eq!(PTNWaveType::from_u8(200), PTNWaveType::Off);
}

//! Writing projects back to bytes, block by block in a fixed order.
use vstd::prelude::*;
use crate::codec::{le16_bytes, le32_bytes, le_u16, le_u32, v_w, vr_encode, write_u16, write_u32};
use crate::event::{BaseEvent, RPxToneEvent, TUNING_ONE_BITS, clock_sorted, u32_of_bits};
use crate::io::{
    MAGIC_HI, MAGIC_LO, RPxToneIOError, TAG_COMMENT, TAG_END, TAG_EVENT, TAG_MASTER, TAG_NAME,
    TAG_NUM_UNIT, TAG_OGGV, TAG_PCM, TAG_PTN, TAG_PTV, TAG_UNIT, header_ok, le_u64,
};
use crate::project::{RPxTone, RPxToneUnit};
use vstd::utf8::encode_utf8;
use crate::ptv::{PTV_CODE, PTV_MAX_VERSION};
use crate::woice::{
    RPxTonePTVCoordinatePoint, RPxTonePTVEnvelope, RPxTonePTVEnvelopePoint,
    RPxTonePTVOvertoneWaveTone, RPxTonePTVWaveType, RPxToneVoicePTV, RPxToneWoice,
    RPxToneWoiceType,
};

verus! {

/// Appends the bytes of `src`.
pub fn append_bytes(out: &mut Vec<u8>, src: &[u8])
    ensures
        final(out)@ == old(out)@ + src@,
{
    let mut i: usize = 0;
    while i < src.len()
        invariant
            i <= src@.len(),
            out@ == old(out)@ + src@.take(i as int),
        decreases src@.len() - i,
    {
        out.push(src[i]);
        i = i + 1;
        assert(out@ =~= old(out)@ + src@.take(i as int));
    }
    assert(src@.take(src@.len() as int) =~= src@);
}

/// Appends `n` as a variable-length integer.
pub fn push_vr(out: &mut Vec<u8>, n: u32)
    ensures
        final(out)@ == old(out)@ + vr_encode(n as nat),
{
    let enc = v_w(n);
    append_bytes(out, enc.as_slice());
}

/// The eight bytes of `v`, least significant first.
pub open spec fn le64_bytes(v: u64) -> Seq<u8> {
    le32_bytes((v % 0x1_0000_0000) as u32) + le32_bytes((v / 0x1_0000_0000) as u32)
}

/// Appends `v` in little-endian order.
pub fn write_u64(out: &mut Vec<u8>, v: u64)
    ensures
        final(out)@ == old(out)@ + le64_bytes(v),
        final(out)@.len() == old(out)@.len() + 8,
        final(out)@.take(old(out)@.len() as int) == old(out)@,
        le_u64(final(out)@, old(out)@.len() as int) == v,
{
    let ghost o = old(out)@;
    write_u32(out, (v % 0x1_0000_0000) as u32);
    let ghost mid = out@;
    write_u32(out, (v / 0x1_0000_0000) as u32);
    proof {
        let f = out@;
        assert(f.take(mid.len() as int) == mid);
        assert forall|k: int| 0 <= k < mid.len() implies f[k] == mid[k] by {
            assert(f.take(mid.len() as int)[k] == f[k]);
        }
        assert forall|k: int| 0 <= k < o.len() implies f[k] == o[k] by {
            assert(mid.take(o.len() as int)[k] == mid[k]);
        }
        assert(f.take(o.len() as int) =~= o);
        assert(le_u32(f, o.len() as int) == le_u32(mid, o.len() as int));
        assert(f =~= o + le64_bytes(v));
    }
}

proof fn lemma_le_u64_same(f: Seq<u8>, g: Seq<u8>, pos: int)
    requires
        0 <= pos,
        pos + 8 <= f.len(),
        pos + 8 <= g.len(),
        forall|k: int| pos <= k < pos + 8 ==> f[k] == g[k],
    ensures
        le_u64(f, pos) == le_u64(g, pos),
{
    assert(f[pos] == g[pos]);
    assert(f[pos + 1] == g[pos + 1]);
    assert(f[pos + 2] == g[pos + 2]);
    assert(f[pos + 3] == g[pos + 3]);
    assert(f[pos + 4] == g[pos + 4]);
    assert(f[pos + 5] == g[pos + 5]);
    assert(f[pos + 6] == g[pos + 6]);
    assert(f[pos + 7] == g[pos + 7]);
}

/// The bytes of one stored event that follows an event at clock `prev`.
pub open spec fn event_bytes(e: RPxToneEvent, prev: u32) -> Seq<u8> {
    vr_encode((e.clock - prev) as nat) + seq![e.unit_no, e.kind.code_spec()] + vr_encode(
        u32_of_bits(e.value) as nat,
    )
}

/// The stored form of `evs`: each event's clock as the distance from the one before.
pub open spec fn events_bytes(evs: Seq<RPxToneEvent>) -> Seq<u8>
    decreases evs.len(),
{
    if evs.len() == 0 {
        Seq::empty()
    } else {
        let prev: u32 = if evs.len() >= 2 {
            evs[evs.len() - 2].clock
        } else {
            0
        };
        events_bytes(evs.drop_last()) + event_bytes(evs.last(), prev)
    }
}

/// Encodes events in order of clock as an event stream.
pub fn encode_events(evs: &Vec<RPxToneEvent>) -> (r: Vec<u8>)
    requires
        clock_sorted(evs@),
    ensures
        r@ == events_bytes(evs@),
{
    let mut out: Vec<u8> = Vec::new();
    let mut prev: u32 = 0;
    let mut i: usize = 0;
    proof {
        assert(evs@.take(0) =~= Seq::<RPxToneEvent>::empty());
    }
    while i < evs.len()
        invariant
            i <= evs@.len(),
            clock_sorted(evs@),
            out@ == events_bytes(evs@.take(i as int)),
            prev == (if i >= 1 { evs@[i - 1].clock } else { 0u32 }),
        decreases evs@.len() - i,
    {
        let e = evs[i];
        proof {
            if i >= 1 {
                assert(evs@[i - 1].clock <= evs@[i as int].clock);
            }
        }
        let delta: u32 = e.clock - prev;
        push_vr(&mut out, delta);
        out.push(e.unit_no);
        out.push(e.kind.to_u8());
        push_vr(&mut out, to_bits_u32(e.value));
        proof {
            let t = evs@.take(i + 1);
            assert(t.drop_last() =~= evs@.take(i as int));
            assert(t.last() == e);
            if i >= 1 {
                assert(t[t.len() - 2] == evs@[i - 1]);
            }
            assert(out@ =~= events_bytes(t));
        }
        prev = e.clock;
        i = i + 1;
    }
    proof {
        assert(evs@.take(evs@.len() as int) =~= evs@);
    }
    out
}

pub(crate) fn to_bits_u32(v: i32) -> (r: u32)
    ensures
        r == u32_of_bits(v),
{
    if v < 0 {
        (v as i64 + 0x1_0000_0000) as u32
    } else {
        v as u32
    }
}

/// The stored event bytes up to event `i` begin the stored bytes of all of them.
proof fn lemma_events_bytes_prefix(evs: Seq<RPxToneEvent>, i: int)
    requires
        0 <= i <= evs.len(),
    ensures
        exists|t: Seq<u8>| events_bytes(evs) == events_bytes(evs.take(i)) + t,
    decreases evs.len(),
{
    if i == evs.len() {
        assert(evs.take(i) =~= evs);
        assert(events_bytes(evs) == events_bytes(evs.take(i)) + Seq::<u8>::empty());
    } else {
        let d = evs.drop_last();
        lemma_events_bytes_prefix(d, i);
        assert(d.take(i) =~= evs.take(i));
        let t = choose|t: Seq<u8>| events_bytes(d) == events_bytes(d.take(i)) + t;
        let prev: u32 = if evs.len() >= 2 { evs[evs.len() - 2].clock } else { 0 };
        let last = event_bytes(evs.last(), prev);
        assert(events_bytes(evs) == events_bytes(d) + last);
        assert(events_bytes(evs) =~= events_bytes(evs.take(i)) + (t + last));
    }
}

proof fn lemma_bits_round_trip(v: i32)
    ensures
        crate::io::i32_of(u32_of_bits(v)) == v,
{
}

/// Decoding the bytes of event `e` after an event at clock `prev` gives `e` back.
proof fn lemma_event_step_round_trip(s: Seq<u8>, pos: nat, e: RPxToneEvent, prev: u32, rest: Seq<u8>)
    requires
        pos <= s.len(),
        s.skip(pos as int) == event_bytes(e, prev) + rest,
        prev <= e.clock,
        e.kind != crate::event::EventKind::Null,
    ensures
        crate::io::event_step(s, pos, prev) == Some((Some(e), pos + event_bytes(e, prev).len(), e.clock)),
{
    let d = (e.clock - prev) as u32;
    let v = u32_of_bits(e.value);
    let a = vr_encode(d as nat);
    let b = vr_encode(v as nat);
    let mid = seq![e.unit_no, e.kind.code_spec()];
    assert(event_bytes(e, prev) == a + mid + b);
    assert(s.skip(pos as int) =~= a + (mid + b + rest));
    crate::codec::lemma_vr_decode_prefix(d, mid + b + rest);
    crate::codec::lemma_vr_round_trip(d);
    crate::codec::lemma_vr_round_trip(v);
    crate::codec::lemma_encode_value(d as nat);
    crate::codec::lemma_encode_value(v as nat);
    let p1: int = (pos + a.len()) as int;
    assert(s[p1] == s.skip(pos as int)[a.len() as int]);
    assert(s[p1 + 1] == s.skip(pos as int)[a.len() + 1int]);
    assert(s[p1] == e.unit_no);
    assert(s[p1 + 1] == e.kind.code_spec());
    let u = s.skip(pos as int);
    assert(u =~= a + (mid + b + rest));
    assert(u.skip(a.len() + 2int) =~= b + rest);
    assert(s.skip(p1 + 2) =~= u.skip(a.len() + 2int));
    crate::codec::lemma_vr_decode_prefix(v, rest);
    crate::event::lemma_kind_code_round_trip(e.kind);
    lemma_bits_round_trip(e.value);
    reveal(crate::io::event_step);
}

/// The clock of the event before event `i`, zero for the first.
pub open spec fn clock_before(evs: Seq<RPxToneEvent>, i: int) -> u32 {
    if i >= 1 {
        evs[i - 1].clock
    } else {
        0
    }
}

proof fn lemma_event_run_prefix(c: Seq<u8>, evs: Seq<RPxToneEvent>, i: nat)
    requires
        c.len() == 4,
        clock_sorted(evs),
        forall|j: int| 0 <= j < evs.len() ==> (#[trigger] evs[j]).kind != crate::event::EventKind::Null,
        i <= evs.len(),
    ensures
        crate::io::event_run(c + events_bytes(evs), 4, i) == Some(
            (evs.take(i as int), 4 + events_bytes(evs.take(i as int)).len(), clock_before(evs, i as int)),
        ),
    decreases i,
{
    let s = c + events_bytes(evs);
    if i == 0 {
        assert(evs.take(0) =~= Seq::<RPxToneEvent>::empty());
    } else {
        let k = (i - 1) as nat;
        lemma_event_run_prefix(c, evs, k);
        let pre = evs.take(k as int);
        let cur = evs.take(i as int);
        assert(cur.drop_last() =~= pre);
        assert(cur.last() == evs[k as int]);
        let prev = clock_before(evs, k as int);
        if k >= 1 {
            assert(cur[cur.len() - 2] == evs[k - 1]);
        }
        assert(events_bytes(cur) == events_bytes(pre) + event_bytes(evs[k as int], prev));
        lemma_events_bytes_prefix(evs, i as int);
        let t = choose|t: Seq<u8>| events_bytes(evs) == events_bytes(cur) + t;
        let pos: int = (4 + events_bytes(pre).len()) as int;
        assert(s.skip(pos) =~= event_bytes(evs[k as int], prev) + t);
        if k >= 1 {
            assert(evs[k - 1].clock <= evs[k as int].clock);
        }
        lemma_event_step_round_trip(s, pos as nat, evs[k as int], prev, t);
        assert(pre.push(evs[k as int]) =~= cur);
    }
}

/// Writing events (in clock order, none of them `Null`) as an event block and reading the
/// block back gives the same events in the same order.
pub proof fn lemma_event_block_round_trip(c: Seq<u8>, evs: Seq<RPxToneEvent>)
    requires
        c.len() == 4,
        le_u32(c, 0) == evs.len(),
        clock_sorted(evs),
        forall|j: int| 0 <= j < evs.len() ==> (#[trigger] evs[j]).kind != crate::event::EventKind::Null,
    ensures
        ({
            let block = c + events_bytes(evs);
            &&& le_u32(block, 0) == evs.len()
            &&& crate::io::event_run(block, 4, evs.len()) matches Some(run) && run.0 == evs
        }),
{
    let block = c + events_bytes(evs);
    assert(block[0] == c[0] && block[1] == c[1] && block[2] == c[2] && block[3] == c[3]);
    lemma_event_run_prefix(c, evs, evs.len());
    assert(evs.take(evs.len() as int) =~= evs);
}

/// A block: its tag, the payload size, the payload.
pub open spec fn block_bytes(tag: u64, payload: Seq<u8>) -> Seq<u8> {
    le64_bytes(tag) + le32_bytes(payload.len() as u32) + payload
}

/// Appends a block: its tag, the payload size, the payload.
pub fn write_block(out: &mut Vec<u8>, tag: u64, payload: &Vec<u8>) -> (r: Result<(), RPxToneIOError>)
    ensures
        r is Ok <==> payload@.len() <= u32::MAX,
        r is Err ==> final(out)@ == old(out)@,
        r is Ok ==> final(out)@ == old(out)@ + block_bytes(tag, payload@),
        r is Ok ==> {
            let o = old(out)@.len() as int;
            &&& final(out)@.len() == o + 12 + payload@.len()
            &&& final(out)@.take(o) == old(out)@
            &&& le_u64(final(out)@, o) == tag
            &&& le_u32(final(out)@, o + 8) == payload@.len()
            &&& final(out)@.skip(o + 12) == payload@
        },
{
    if payload.len() > u32::MAX as usize {
        return Err(RPxToneIOError::IncorrectBlockSize { block: tag, expected: u32::MAX, actual: u32::MAX });
    }
    let ghost o = old(out)@;
    write_u64(out, tag);
    let ghost a = out@;
    write_u32(out, payload.len() as u32);
    let ghost b = out@;
    append_bytes(out, payload.as_slice());
    proof {
        let f = out@;
        assert forall|k: int| 0 <= k < b.len() implies f[k] == b[k] by {}
        assert forall|k: int| 0 <= k < a.len() implies b[k] == a[k] by {
            assert(b.take(a.len() as int)[k] == b[k]);
        }
        assert forall|k: int| 0 <= k < o.len() implies a[k] == o[k] by {
            assert(a.take(o.len() as int)[k] == a[k]);
        }
        assert(f.take(o.len() as int) =~= o);
        assert(f.skip(o.len() + 12int) =~= payload@);
        assert(le_u64(f, o.len() as int) == le_u64(a, o.len() as int));
        assert(le_u32(f, o.len() + 8int) == le_u32(b, o.len() + 8int));
        assert(f =~= o + block_bytes(tag, payload@));
    }
    Ok(())
}

/// A field that the format stores in 16 bits.
fn u16_field(v: i32) -> (r: Result<u16, RPxToneIOError>)
    ensures
        r is Ok <==> 0 <= v <= u16::MAX,
        r matches Ok(x) ==> x == v,
{
    if v < 0 || v > 0xffff {
        return Err(RPxToneIOError::InvalidVoice);
    }
    Ok(v as u16)
}

/// The flag word of a sampled voice.
fn flag_word(flag_loop: bool, flag_smooth: bool, flag_beat_fit: bool) -> (r: u32)
    ensures
        r == flag_bits(flag_loop, flag_smooth, flag_beat_fit),
        r < 8,
        (r % 2 == 1) == flag_loop,
        (r / 2 % 2 == 1) == flag_smooth,
        (r / 4 % 2 == 1) == flag_beat_fit,
{
    (if flag_loop { 1u32 } else { 0 }) + (if flag_smooth { 2u32 } else { 0 }) + (if flag_beat_fit { 4u32 } else { 0 })
}

/// Two integers per envelope point.
pub open spec fn env_points_bytes(ps: Seq<RPxTonePTVEnvelopePoint>) -> Seq<u8>
    decreases ps.len(),
{
    if ps.len() == 0 {
        Seq::empty()
    } else {
        env_points_bytes(ps.drop_last()) + vr_encode(ps.last().x as nat) + vr_encode(ps.last().y as nat)
    }
}

/// An envelope: frames per second, the three point counts, the points.
pub open spec fn envelope_bytes(e: &RPxTonePTVEnvelope) -> Seq<u8> {
    vr_encode(e.fps as nat) + vr_encode(e.head_num as nat) + vr_encode(e.body_num as nat) + vr_encode(
        e.tail_num as nat,
    ) + env_points_bytes(e.points@)
}

/// Two bytes per coordinate point: `x` and `y`, each cut to its low byte.
pub open spec fn points_bytes(ps: Seq<RPxTonePTVCoordinatePoint>) -> Seq<u8>
    decreases ps.len(),
{
    if ps.len() == 0 {
        Seq::empty()
    } else {
        points_bytes(ps.drop_last()) + seq![(ps.last().x % 0x100) as u8, (u32_of_bits(ps.last().y) % 0x100) as u8]
    }
}

/// Two integers per overtone: its frequency and the bit pattern of its amplitude.
pub open spec fn tones_bytes(ts: Seq<RPxTonePTVOvertoneWaveTone>) -> Seq<u8>
    decreases ts.len(),
{
    if ts.len() == 0 {
        Seq::empty()
    } else {
        tones_bytes(ts.drop_last()) + vr_encode(ts.last().frequency as nat) + vr_encode(
            u32_of_bits(ts.last().amplitude as i32) as nat,
        )
    }
}

/// A wave: its type, then its points or tones.
pub open spec fn wave_bytes(w: &RPxTonePTVWaveType) -> Seq<u8> {
    match w {
        RPxTonePTVWaveType::Coordinate(c) => vr_encode(0) + vr_encode((c.points@.len() as u32) as nat)
            + vr_encode(c.resolution as nat) + points_bytes(c.points@),
        RPxTonePTVWaveType::Overtone(o) => vr_encode(1) + vr_encode((o.tones@.len() as u32) as nat)
            + tones_bytes(o.tones@),
    }
}

/// One voice: key, volume, pan, tuning, flags, the data flags (a wave, and an envelope when
/// there is one), the wave and the envelope.
pub open spec fn voice_bytes(v: &RPxToneVoicePTV) -> Seq<u8> {
    vr_encode(u32_of_bits(v.basic_key) as nat) + vr_encode(u32_of_bits(v.volume) as nat) + vr_encode(
        u32_of_bits(v.pan) as nat,
    ) + vr_encode(v.tuning_bits as nat) + vr_encode(v.voice_flags as nat) + vr_encode(
        if v.envelope is Some { 3 } else { 1 },
    ) + wave_bytes(&v.wave) + match &v.envelope {
        Some(e) => envelope_bytes(e),
        None => Seq::empty(),
    }
}

/// The voices one after another.
pub open spec fn voices_bytes(vs: Seq<RPxToneVoicePTV>) -> Seq<u8>
    decreases vs.len(),
{
    if vs.len() == 0 {
        Seq::empty()
    } else {
        voices_bytes(vs.drop_last()) + voice_bytes(&vs.last())
    }
}

/// The voice stream after its byte total: three zero integers, the count, the voices.
pub open spec fn ptv_body(vs: Seq<RPxToneVoicePTV>) -> Seq<u8> {
    vr_encode(0) + vr_encode(0) + vr_encode(0) + vr_encode((vs.len() as u32) as nat) + voices_bytes(vs)
}

/// A PTV block's payload, unless the stream is too long for its size fields.
pub open spec fn ptv_payload_bytes(vs: Seq<RPxToneVoicePTV>) -> Option<Seq<u8>> {
    let body = ptv_body(vs);
    if body.len() > 0xffff_0000 {
        None
    } else {
        Some(
            le16_bytes(0) + le16_bytes(0) + le32_bytes(TUNING_ONE_BITS) + le32_bytes((body.len() + 16) as u32)
                + le64_bytes(PTV_CODE) + le32_bytes(PTV_MAX_VERSION) + le32_bytes(body.len() as u32) + body,
        )
    }
}

fn write_envelope(out: &mut Vec<u8>, env: &RPxTonePTVEnvelope)
    ensures
        final(out)@ == old(out)@ + envelope_bytes(env),
{
    push_vr(out, env.fps);
    push_vr(out, env.head_num);
    push_vr(out, env.body_num);
    push_vr(out, env.tail_num);
    let ghost start = out@;
    let mut i: usize = 0;
    proof {
        assert(env.points@.take(0) =~= Seq::<RPxTonePTVEnvelopePoint>::empty());
        assert(out@ =~= start + env_points_bytes(env.points@.take(0)));
    }
    while i < env.points.len()
        invariant
            i <= env.points@.len(),
            out@ == start + env_points_bytes(env.points@.take(i as int)),
        decreases env.points@.len() - i,
    {
        push_vr(out, env.points[i].x);
        push_vr(out, env.points[i].y);
        proof {
            let t = env.points@.take(i + 1);
            assert(t.drop_last() =~= env.points@.take(i as int));
            assert(out@ =~= start + env_points_bytes(t));
        }
        i = i + 1;
    }
    proof {
        assert(env.points@.take(env.points@.len() as int) =~= env.points@);
        assert(out@ =~= old(out)@ + envelope_bytes(env));
    }
}

fn write_wave(out: &mut Vec<u8>, wave: &RPxTonePTVWaveType)
    ensures
        final(out)@ == old(out)@ + wave_bytes(wave),
{
    let ghost head = out@;
    match wave {
        RPxTonePTVWaveType::Coordinate(c) => {
            push_vr(out, 0);
            push_vr(out, c.points.len() as u32);
            push_vr(out, c.resolution);
            let ghost start = out@;
            let mut i: usize = 0;
            proof {
                assert(c.points@.take(0) =~= Seq::<RPxTonePTVCoordinatePoint>::empty());
                assert(out@ =~= start + points_bytes(c.points@.take(0)));
            }
            while i < c.points.len()
                invariant
                    i <= c.points@.len(),
                    out@ == start + points_bytes(c.points@.take(i as int)),
                decreases c.points@.len() - i,
            {
                let p = c.points[i];
                out.push((p.x % 0x100) as u8);
                out.push(low_byte(p.y));
                proof {
                    let t = c.points@.take(i + 1);
                    assert(t.drop_last() =~= c.points@.take(i as int));
                    assert(out@ =~= start + points_bytes(t));
                }
                i = i + 1;
            }
            proof {
                assert(c.points@.take(c.points@.len() as int) =~= c.points@);
            }
        },
        RPxTonePTVWaveType::Overtone(o) => {
            push_vr(out, 1);
            push_vr(out, o.tones.len() as u32);
            let ghost start = out@;
            let mut i: usize = 0;
            proof {
                assert(o.tones@.take(0) =~= Seq::<RPxTonePTVOvertoneWaveTone>::empty());
                assert(out@ =~= start + tones_bytes(o.tones@.take(0)));
            }
            while i < o.tones.len()
                invariant
                    i <= o.tones@.len(),
                    out@ == start + tones_bytes(o.tones@.take(i as int)),
                decreases o.tones@.len() - i,
            {
                let t = o.tones[i];
                push_vr(out, t.frequency as u32);
                push_vr(out, to_bits_u32(t.amplitude as i32));
                proof {
                    let tk = o.tones@.take(i + 1);
                    assert(tk.drop_last() =~= o.tones@.take(i as int));
                    assert(out@ =~= start + tones_bytes(tk));
                }
                i = i + 1;
            }
            proof {
                assert(o.tones@.take(o.tones@.len() as int) =~= o.tones@);
            }
        },
    }
    proof {
        assert(out@ =~= head + wave_bytes(wave));
    }
}

fn write_ptv_voice(out: &mut Vec<u8>, v: &RPxToneVoicePTV)
    ensures
        final(out)@ == old(out)@ + voice_bytes(v),
{
    push_vr(out, to_bits_u32(v.basic_key));
    push_vr(out, to_bits_u32(v.volume));
    push_vr(out, to_bits_u32(v.pan));
    push_vr(out, v.tuning_bits);
    push_vr(out, v.voice_flags);
    let data_flags: u32 = match &v.envelope {
        Some(_) => 3,
        None => 1,
    };
    push_vr(out, data_flags);
    let ghost head = out@;
    write_wave(out, &v.wave);
    let ghost mid = out@;
    match &v.envelope {
        Some(env) => write_envelope(out, env),
        None => {},
    }
    proof {
        let tail = match &v.envelope {
            Some(e) => envelope_bytes(e),
            None => Seq::<u8>::empty(),
        };
        assert(out@ =~= mid + tail);
        assert(out@ =~= old(out)@ + voice_bytes(v));
    }
}

/// The low byte of `v`'s bit pattern.
fn low_byte(v: i32) -> (r: u8)
    ensures
        r == u32_of_bits(v) % 0x100,
{
    (to_bits_u32(v) % 0x100) as u8
}

/// The payload of a PTV instrument block.
fn ptv_payload(voices: &Vec<RPxToneVoicePTV>) -> (r: Result<Vec<u8>, RPxToneIOError>)
    ensures
        match ptv_payload_bytes(voices@) {
            Some(b) => r matches Ok(v) && v@ == b,
            None => r is Err,
        },
{
    let mut body: Vec<u8> = Vec::new();
    push_vr(&mut body, 0);
    push_vr(&mut body, 0);
    push_vr(&mut body, 0);
    push_vr(&mut body, voices.len() as u32);
    let ghost start = body@;
    let mut i: usize = 0;
    proof {
        assert(voices@.take(0) =~= Seq::<RPxToneVoicePTV>::empty());
        assert(body@ =~= start + voices_bytes(voices@.take(0)));
    }
    while i < voices.len()
        invariant
            i <= voices@.len(),
            body@ == start + voices_bytes(voices@.take(i as int)),
        decreases voices@.len() - i,
    {
        write_ptv_voice(&mut body, &voices[i]);
        proof {
            let t = voices@.take(i + 1);
            assert(t.drop_last() =~= voices@.take(i as int));
            assert(body@ =~= start + voices_bytes(t));
        }
        i = i + 1;
    }
    proof {
        assert(voices@.take(voices@.len() as int) =~= voices@);
        assert(body@ =~= ptv_body(voices@));
    }
    if body.len() > 0xffff_0000 {
        return Err(RPxToneIOError::InvalidVoice);
    }
    let mut out: Vec<u8> = Vec::new();
    write_u16(&mut out, 0);
    write_u16(&mut out, 0);
    write_u32(&mut out, TUNING_ONE_BITS);
    write_u32(&mut out, (body.len() + 16) as u32);
    write_u64(&mut out, PTV_CODE);
    write_u32(&mut out, PTV_MAX_VERSION);
    write_u32(&mut out, body.len() as u32);
    append_bytes(&mut out, body.as_slice());
    proof {
        assert(out@ =~= ptv_payload_bytes(voices@)->0);
    }
    Ok(out)
}

/// The flag word of a sampled voice: loop, smooth and beat fit in its low three bits.
pub open spec fn flag_bits(flag_loop: bool, flag_smooth: bool, flag_beat_fit: bool) -> u32 {
    ((if flag_loop { 1int } else { 0 }) + (if flag_smooth { 2int } else { 0 }) + (if flag_beat_fit { 4int } else { 0 })) as u32
}

/// A field stored in 16 bits holds `v`.
pub open spec fn fits_u16(v: i32) -> bool {
    0 <= v <= u16::MAX
}

/// The block tag and payload of an instrument, unless a field does not fit the format.
pub open spec fn woice_payload(w: &RPxToneWoice) -> Option<(u64, Seq<u8>)> {
    match &w.woice_type {
        RPxToneWoiceType::PCM(pcm) => {
            let v = &pcm.voice;
            if v.data@.len() > u32::MAX || !fits_u16(v.basic_key) {
                None
            } else {
                Some(
                    (
                        TAG_PCM,
                        le16_bytes(0) + le16_bytes(v.basic_key as u16) + le32_bytes(
                            flag_bits(v.flag_loop, v.flag_smooth, v.flag_beat_fit),
                        ) + le16_bytes(v.channels as u16) + le16_bytes(v.bits_per_sample as u16)
                            + le32_bytes(v.samples_per_second) + le32_bytes(v.tuning_bits) + le32_bytes(
                            v.data@.len() as u32,
                        ) + v.data@,
                    ),
                )
            }
        },
        RPxToneWoiceType::OGGV(oggv) => {
            let v = &oggv.voice;
            if v.ogg_data@.len() > u32::MAX || !fits_u16(v.basic_key) {
                None
            } else {
                Some(
                    (
                        TAG_OGGV,
                        le16_bytes(0) + le16_bytes(v.basic_key as u16) + le32_bytes(
                            flag_bits(v.flag_loop, v.flag_smooth, v.flag_beat_fit),
                        ) + le32_bytes(v.tuning_bits) + le32_bytes(v.channels) + le32_bytes(
                            v.samples_per_second,
                        ) + le32_bytes(v.sample_num) + le32_bytes(v.ogg_data@.len() as u32)
                            + v.ogg_data@,
                    ),
                )
            }
        },
        RPxToneWoiceType::PTV(ptv) => match ptv_payload_bytes(ptv.voices@) {
            Some(b) => Some((TAG_PTV, b)),
            None => None,
        },
        RPxToneWoiceType::PTN(ptn) => Some((TAG_PTN, ptn.data@)),
    }
}

/// The block tag and payload of an instrument.
fn woice_block(w: &RPxToneWoice) -> (r: Result<(u64, Vec<u8>), RPxToneIOError>)
    ensures
        match woice_payload(w) {
            Some((tag, b)) => r matches Ok((t, v)) && t == tag && v@ == b,
            None => r is Err,
        },
{
    match &w.woice_type {
        RPxToneWoiceType::PCM(pcm) => {
            let v = &pcm.voice;
            if v.data.len() > u32::MAX as usize {
                return Err(RPxToneIOError::InvalidVoice);
            }
            let key = u16_field(v.basic_key)?;
            let mut out: Vec<u8> = Vec::new();
            write_u16(&mut out, 0);
            write_u16(&mut out, key);
            write_u32(&mut out, flag_word(v.flag_loop, v.flag_smooth, v.flag_beat_fit));
            write_u16(&mut out, v.channels as u16);
            write_u16(&mut out, v.bits_per_sample as u16);
            write_u32(&mut out, v.samples_per_second);
            write_u32(&mut out, v.tuning_bits);
            write_u32(&mut out, v.data.len() as u32);
            append_bytes(&mut out, v.data.as_slice());
            proof {
                let expected = woice_payload(w)->0;
                assert(out@ =~= expected.1);
            }
            Ok((TAG_PCM, out))
        },
        RPxToneWoiceType::OGGV(oggv) => {
            let v = &oggv.voice;
            if v.ogg_data.len() > u32::MAX as usize {
                return Err(RPxToneIOError::InvalidVoice);
            }
            let key = u16_field(v.basic_key)?;
            let mut out: Vec<u8> = Vec::new();
            write_u16(&mut out, 0);
            write_u16(&mut out, key);
            write_u32(&mut out, flag_word(v.flag_loop, v.flag_smooth, v.flag_beat_fit));
            write_u32(&mut out, v.tuning_bits);
            write_u32(&mut out, v.channels);
            write_u32(&mut out, v.samples_per_second);
            write_u32(&mut out, v.sample_num);
            write_u32(&mut out, v.ogg_data.len() as u32);
            append_bytes(&mut out, v.ogg_data.as_slice());
            proof {
                let expected = woice_payload(w)->0;
                assert(out@ =~= expected.1);
            }
            Ok((TAG_OGGV, out))
        },
        RPxToneWoiceType::PTV(ptv) => {
            let out = ptv_payload(&ptv.voices)?;
            Ok((TAG_PTV, out))
        },
        RPxToneWoiceType::PTN(ptn) => {
            let mut out: Vec<u8> = Vec::new();
            append_bytes(&mut out, ptn.data.as_slice());
            proof {
                assert(out@ =~= ptn.data@);
            }
            Ok((TAG_PTN, out))
        },
    }
}

/// The clock (in ticks) of the start of measure `m`.
pub open spec fn measure_clock(p: &RPxTone, m: i32) -> int {
    m * p.beat_num * p.beat_clock
}

/// Whether `p`'s master fields fit the master block.
pub open spec fn master_fits(p: &RPxTone) -> bool {
    &&& 0 < p.beat_clock <= 32767
    &&& 0 < p.beat_num <= 127
    &&& 0 <= p.repeat_measure && measure_clock(p, p.repeat_measure) <= i32::MAX
    &&& 0 <= p.last_measure && measure_clock(p, p.last_measure) <= i32::MAX
}

proof fn lemma_le_u32_same(f: Seq<u8>, g: Seq<u8>, pos: int)
    requires
        0 <= pos,
        pos + 4 <= f.len(),
        pos + 4 <= g.len(),
        forall|k: int| pos <= k < pos + 4 ==> f[k] == g[k],
    ensures
        le_u32(f, pos) == le_u32(g, pos),
{
    assert(f[pos] == g[pos]);
    assert(f[pos + 1] == g[pos + 1]);
    assert(f[pos + 2] == g[pos + 2]);
    assert(f[pos + 3] == g[pos + 3]);
}

/// The master block's payload.
pub open spec fn master_bytes(p: &RPxTone) -> Seq<u8> {
    le16_bytes(p.beat_clock as u16) + seq![p.beat_num as u8] + le32_bytes(p.beat_tempo_bits) + le32_bytes(
        measure_clock(p, p.repeat_measure) as u32,
    ) + le32_bytes(measure_clock(p, p.last_measure) as u32)
}

/// The 15-byte master block of `p`: beat clock, beats per measure, tempo, and the repeat
/// and last measures as clocks. Fails when those do not fit their fields.
fn master_payload(p: &RPxTone) -> (r: Result<Vec<u8>, RPxToneIOError>)
    ensures
        r is Ok <==> master_fits(p),
        r matches Ok(b) ==> b@ == master_bytes(p),
        r matches Ok(b) ==> {
            &&& b@.len() == 15
            &&& le_u16(b@, 0) == p.beat_clock
            &&& b@[2] == p.beat_num
            &&& le_u32(b@, 3) == p.beat_tempo_bits
            &&& le_u32(b@, 7) == measure_clock(p, p.repeat_measure)
            &&& le_u32(b@, 11) == measure_clock(p, p.last_measure)
        },
{
    if !(0 < p.beat_clock && p.beat_clock <= 32767 && 0 < p.beat_num && p.beat_num <= 127) {
        return Err(RPxToneIOError::InvalidMaster);
    }
    if p.repeat_measure < 0 || p.last_measure < 0 {
        return Err(RPxToneIOError::InvalidMaster);
    }
    let bn: i64 = p.beat_num as i64;
    let bc: i64 = p.beat_clock as i64;
    assert(0 < bn * bc <= 127 * 32767) by (nonlinear_arith)
        requires
            0 < bn <= 127,
            0 < bc <= 32767,
    ;
    let per: i64 = bn * bc;
    let rm: i64 = p.repeat_measure as i64;
    let lm: i64 = p.last_measure as i64;
    proof {
        let pr = per as int;
        assert(rm * pr == measure_clock(p, p.repeat_measure)) by (nonlinear_arith)
            requires
                pr == bn * bc,
                bn == p.beat_num,
                bc == p.beat_clock,
                rm == p.repeat_measure,
        ;
        assert(lm * pr == measure_clock(p, p.last_measure)) by (nonlinear_arith)
            requires
                pr == bn * bc,
                bn == p.beat_num,
                bc == p.beat_clock,
                lm == p.last_measure,
        ;
        assert((rm * pr <= 0x7fff_ffff) == (rm <= 0x7fff_ffffint / pr)) by (nonlinear_arith)
            requires
                pr > 0,
                rm >= 0,
        ;
        assert((lm * pr <= 0x7fff_ffff) == (lm <= 0x7fff_ffffint / pr)) by (nonlinear_arith)
            requires
                pr > 0,
                lm >= 0,
        ;
    }
    if rm > 0x7fff_ffff / per || lm > 0x7fff_ffff / per {
        return Err(RPxToneIOError::InvalidMaster);
    }
    let clock_repeat: u32 = (rm * per) as u32;
    let clock_last: u32 = (lm * per) as u32;
    let mut out: Vec<u8> = Vec::new();
    write_u16(&mut out, p.beat_clock as u16);
    let ghost o1 = out@;
    out.push(p.beat_num as u8);
    let ghost o2 = out@;
    write_u32(&mut out, p.beat_tempo_bits);
    let ghost o3 = out@;
    write_u32(&mut out, clock_repeat);
    let ghost o4 = out@;
    write_u32(&mut out, clock_last);
    proof {
        let f = out@;
        assert forall|k: int| 0 <= k < 11 implies f[k] == o4[k] by {
            assert(f.take(11)[k] == f[k]);
        }
        assert forall|k: int| 0 <= k < 7 implies o4[k] == o3[k] by {
            assert(o4.take(7)[k] == o4[k]);
        }
        assert forall|k: int| 0 <= k < 3 implies o3[k] == o2[k] by {
            assert(o3.take(3)[k] == o3[k]);
        }
        assert forall|k: int| 0 <= k < 2 implies o2[k] == o1[k] by {}
        lemma_le_u32_same(f, o4, 7);
        lemma_le_u32_same(f, o3, 3);
        assert(f[0] == o1[0] && f[1] == o1[1]);
        assert(f[2] == o2[2]);
        assert(clock_repeat == measure_clock(p, p.repeat_measure) as u32);
        assert(clock_last == measure_clock(p, p.last_measure) as u32);
        assert(f =~= master_bytes(p));
    }
    Ok(out)
}

/// Reading back the master block written for a project gives the project's beat clock,
/// beats per measure, tempo, and repeat and last measures.
pub proof fn lemma_master_round_trip(p: &RPxTone, b: Seq<u8>)
    requires
        master_fits(p),
        b.len() == 15,
        le_u16(b, 0) == p.beat_clock,
        b[2] == p.beat_num,
        le_u32(b, 3) == p.beat_tempo_bits,
        le_u32(b, 7) == measure_clock(p, p.repeat_measure),
        le_u32(b, 11) == measure_clock(p, p.last_measure),
    ensures
        crate::io::i16_of(le_u16(b, 0)) == p.beat_clock,
        (if b[2] >= 128 { b[2] - 256 } else { b[2] as int }) == p.beat_num,
        crate::io::i32_of(le_u32(b, 7)) / (p.beat_num * p.beat_clock) == p.repeat_measure,
        crate::io::i32_of(le_u32(b, 11)) / (p.beat_num * p.beat_clock) == p.last_measure,
{
    let bn = p.beat_num as int;
    let bc = p.beat_clock as int;
    let rm = p.repeat_measure as int;
    let lm = p.last_measure as int;
    let per = bn * bc;
    assert(per > 0) by (nonlinear_arith)
        requires
            bn > 0,
            bc > 0,
            per == bn * bc,
    ;
    assert(rm * bn * bc == rm * per && (rm * per) / per == rm) by (nonlinear_arith)
        requires
            per > 0,
            per == bn * bc,
    ;
    assert(lm * bn * bc == lm * per && (lm * per) / per == lm) by (nonlinear_arith)
        requires
            per > 0,
            per == bn * bc,
    ;
}

/// A name's bytes cut or padded with zeros to 16.
pub open spec fn name16(b: Seq<u8>) -> Seq<u8> {
    Seq::new(16, |k: int| if k < b.len() { b[k] } else { 0u8 })
}

/// The payload of the block of unit `index` whose name has bytes `name`.
pub open spec fn unit_payload_bytes(index: nat, name: Seq<u8>) -> Seq<u8> {
    le16_bytes(index as u16) + le16_bytes(0) + name16(name)
}

proof fn lemma_le16_read(s: Seq<u8>, pos: int, v: u16)
    requires
        0 <= pos,
        pos + 2 <= s.len(),
        s.subrange(pos, pos + 2) == le16_bytes(v),
    ensures
        le_u16(s, pos) == v,
{
    assert(s[pos] == le16_bytes(v)[0]);
    assert(s[pos + 1] == le16_bytes(v)[1]);
    let x = v as int;
    assert(x % 0x100 + 0x100 * (x / 0x100) == x) by (nonlinear_arith);
}

proof fn lemma_le32_read(s: Seq<u8>, pos: int, v: u32)
    requires
        0 <= pos,
        pos + 4 <= s.len(),
        s.subrange(pos, pos + 4) == le32_bytes(v),
    ensures
        le_u32(s, pos) == v,
{
    assert(s[pos] == le32_bytes(v)[0]);
    assert(s[pos + 1] == le32_bytes(v)[1]);
    assert(s[pos + 2] == le32_bytes(v)[2]);
    assert(s[pos + 3] == le32_bytes(v)[3]);
    let x = v as int;
    assert(x % 0x100 + 0x100 * (x / 0x100 % 0x100) + 0x1_0000 * (x / 0x1_0000 % 0x100) + 0x100_0000 * (x
        / 0x100_0000) == x) by (nonlinear_arith)
        requires
            0 <= x < 0x1_0000_0000,
    ;
}

/// The master block written for a project reads, and gives back the project's beat clock,
/// beats per measure, tempo, and repeat and last measures.
pub proof fn lemma_master_block_round_trip(p: &RPxTone, st: crate::io::ReadState)
    requires
        master_fits(p),
    ensures
        crate::io::block_ok(master_bytes(p), TAG_MASTER, st.units),
        ({
            let n = crate::io::next_state(st, master_bytes(p), TAG_MASTER);
            &&& n.beat_clock == p.beat_clock
            &&& n.beat_num == p.beat_num
            &&& n.beat_tempo_bits == p.beat_tempo_bits
            &&& n.repeat_measure == p.repeat_measure
            &&& n.last_measure == p.last_measure
        }),
{
    let b = master_bytes(p);
    let rc = measure_clock(p, p.repeat_measure) as u32;
    let lc = measure_clock(p, p.last_measure) as u32;
    assert(b.subrange(0, 2) =~= le16_bytes(p.beat_clock as u16));
    assert(b.subrange(3, 7) =~= le32_bytes(p.beat_tempo_bits));
    assert(b.subrange(7, 11) =~= le32_bytes(rc));
    assert(b.subrange(11, 15) =~= le32_bytes(lc));
    lemma_le16_read(b, 0, p.beat_clock as u16);
    lemma_le32_read(b, 3, p.beat_tempo_bits);
    lemma_le32_read(b, 7, rc);
    lemma_le32_read(b, 11, lc);
    assert(b[2] == p.beat_num as u8);
    let bn = p.beat_num as int;
    let bc = p.beat_clock as int;
    assert(0 <= p.repeat_measure * bn * bc) by (nonlinear_arith)
        requires
            p.repeat_measure >= 0,
            bn > 0,
            bc > 0,
    ;
    assert(0 <= p.last_measure * bn * bc) by (nonlinear_arith)
        requires
            p.last_measure >= 0,
            bn > 0,
            bc > 0,
    ;
    lemma_master_round_trip(p, b);
}

/// The event block written for events in clock order, none of them `Null`, reads, and adds
/// exactly those events in that order.
pub proof fn lemma_event_payload_round_trip(evs: Seq<RPxToneEvent>, st: crate::io::ReadState)
    requires
        evs.len() <= u32::MAX,
        clock_sorted(evs),
        forall|j: int| 0 <= j < evs.len() ==> (#[trigger] evs[j]).kind != crate::event::EventKind::Null,
    ensures
        crate::io::block_ok(event_payload(evs), TAG_EVENT, st.units),
        crate::io::next_state(st, event_payload(evs), TAG_EVENT).events == st.events + evs,
{
    let c = le32_bytes(evs.len() as u32);
    let b = event_payload(evs);
    assert(c.subrange(0, 4) =~= le32_bytes(evs.len() as u32));
    lemma_le32_read(c, 0, evs.len() as u32);
    lemma_event_block_round_trip(c, evs);
    let reached = crate::io::block_clock(b);
    crate::io::lemma_master_events_keep(
        crate::io::ReadState {
            events: st.events + crate::io::block_events(b, TAG_EVENT),
            last_clock: if reached > st.last_clock { reached } else { st.last_clock },
            ..st
        },
        crate::io::block_events(b, TAG_EVENT),
    );
}

/// The 20-byte unit block of unit `index` named `name`: the name's bytes, cut to 16 and
/// padded with zeros.
fn unit_payload(index: usize, name: &String) -> (r: Vec<u8>)
    requires
        index <= u16::MAX,
    ensures
        r@ == unit_payload_bytes(index as nat, encode_utf8(name@)),
{
    let mut out: Vec<u8> = Vec::new();
    write_u16(&mut out, index as u16);
    write_u16(&mut out, 0);
    let bytes = name.as_str().as_bytes();
    let ghost head = out@;
    let ghost padded = name16(encode_utf8(name@));
    let mut i: usize = 0;
    while i < 16
        invariant
            i <= 16,
            bytes@ == encode_utf8(name@),
            padded == name16(encode_utf8(name@)),
            out@ == head + padded.take(i as int),
        decreases 16 - i,
    {
        if i < bytes.len() {
            out.push(bytes[i]);
        } else {
            out.push(0);
        }
        proof {
            assert(padded.take(i + 1) =~= padded.take(i as int).push(padded[i as int]));
        }
        i = i + 1;
    }
    proof {
        assert(padded.take(16) =~= padded);
    }
    out
}

/// The unit blocks, one per unit in order.
pub open spec fn units_blocks(units: Seq<RPxToneUnit>) -> Seq<u8>
    decreases units.len(),
{
    if units.len() == 0 {
        Seq::empty()
    } else {
        units_blocks(units.drop_last()) + block_bytes(
            TAG_UNIT,
            unit_payload_bytes((units.len() - 1) as nat, encode_utf8(units.last().name@)),
        )
    }
}

/// The instrument blocks, one per instrument in order, unless one does not fit the format.
pub open spec fn woices_blocks(ws: Seq<RPxToneWoice>) -> Option<Seq<u8>>
    decreases ws.len(),
{
    if ws.len() == 0 {
        Some(Seq::empty())
    } else {
        match woices_blocks(ws.drop_last()) {
            None => None,
            Some(x) => match woice_payload(&ws.last()) {
                None => None,
                Some((t, b)) => if b.len() > u32::MAX {
                    None
                } else {
                    Some(x + block_bytes(t, b))
                },
            },
        }
    }
}

proof fn lemma_woices_blocks_stay_none(ws: Seq<RPxToneWoice>, k: int, m: int)
    requires
        0 <= k <= m <= ws.len(),
        woices_blocks(ws.take(k)) is None,
    ensures
        woices_blocks(ws.take(m)) is None,
    decreases m - k,
{
    if k < m {
        lemma_woices_blocks_stay_none(ws, k, m - 1);
        assert(ws.take(m).drop_last() =~= ws.take(m - 1));
    }
}

/// The event block's payload: the count, then the stored events.
pub open spec fn event_payload(evs: Seq<RPxToneEvent>) -> Seq<u8> {
    le32_bytes(evs.len() as u32) + events_bytes(evs)
}

/// Every block of `p` after the header: name, comment, master, unit count, units,
/// instruments, events, end marker; `None` when a field does not fit the format.
pub open spec fn file_blocks(p: &RPxTone) -> Option<Seq<u8>> {
    let name = encode_utf8(p.name@);
    let comment = encode_utf8(p.comment@);
    let evs = p.event_list.events@;
    if name.len() > u32::MAX || comment.len() > u32::MAX || !master_fits(p) || p.units@.len()
        > u16::MAX || evs.len() > u32::MAX || event_payload(evs).len() > u32::MAX {
        None
    } else {
        match woices_blocks(p.woices@) {
            None => None,
            Some(wb) => Some(
                block_bytes(TAG_NAME, name) + block_bytes(TAG_COMMENT, comment) + block_bytes(
                    TAG_MASTER,
                    master_bytes(p),
                ) + block_bytes(TAG_NUM_UNIT, le32_bytes(p.units@.len() as u32)) + units_blocks(
                    p.units@,
                ) + wb + block_bytes(TAG_EVENT, event_payload(evs)) + block_bytes(
                    TAG_END,
                    Seq::empty(),
                ),
            ),
        }
    }
}

fn write_units(out: &mut Vec<u8>, units: &Vec<RPxToneUnit>)
    requires
        units@.len() <= u16::MAX,
    ensures
        final(out)@ == old(out)@ + units_blocks(units@),
{
    let ghost before_units = out@;
    let mut i: usize = 0;
    proof {
        assert(units@.take(0) =~= Seq::<RPxToneUnit>::empty());
        assert(out@ =~= before_units + units_blocks(units@.take(0)));
    }
    while i < units.len()
        invariant
            units@.len() <= u16::MAX,
            i <= units@.len(),
            out@ == before_units + units_blocks(units@.take(i as int)),
            before_units == old(out)@,
        decreases units@.len() - i,
    {
        let unit = unit_payload(i, &units[i].name);
        let written = write_block(out, TAG_UNIT, &unit);
        proof {
            let t = units@.take(i + 1);
            assert(t.drop_last() =~= units@.take(i as int));
            assert(t.last() == units@[i as int]);
            assert(out@ =~= before_units + units_blocks(t));
        }
        i = i + 1;
    }
    proof {
        assert(units@.take(units@.len() as int) =~= units@);
    }
}

fn write_woices(out: &mut Vec<u8>, woices: &Vec<RPxToneWoice>) -> (r: Result<(), RPxToneIOError>)
    ensures
        match woices_blocks(woices@) {
            Some(b) => r is Ok && final(out)@ == old(out)@ + b,
            None => r is Err,
        },
{
    let ghost before_woices = out@;
    let ghost mut wb: Seq<u8> = Seq::empty();
    let mut w: usize = 0;
    proof {
        assert(woices@.take(0) =~= Seq::<RPxToneWoice>::empty());
        assert(out@ =~= before_woices + wb);
    }
    while w < woices.len()
        invariant
            w <= woices@.len(),
            woices_blocks(woices@.take(w as int)) == Some(wb),
            out@ == before_woices + wb,
            before_woices == old(out)@,
        decreases woices@.len() - w,
    {
        proof {
            let t = woices@.take(w + 1);
            assert(t.drop_last() =~= woices@.take(w as int));
            assert(t.last() == woices@[w as int]);
        }
        let pair = woice_block(&woices[w]);
        if pair.is_err() {
            proof {
                lemma_woices_blocks_stay_none(woices@, w + 1, woices@.len() as int);
                assert(woices@.take(woices@.len() as int) =~= woices@);
            }
            return Err(RPxToneIOError::InvalidVoice);
        }
        let (tag, block) = pair.unwrap();
        let written = write_block(out, tag, &block);
        if written.is_err() {
            proof {
                lemma_woices_blocks_stay_none(woices@, w + 1, woices@.len() as int);
                assert(woices@.take(woices@.len() as int) =~= woices@);
            }
            return Err(RPxToneIOError::InvalidVoice);
        }
        proof {
            wb = wb + block_bytes(tag, block@);
            assert(out@ =~= before_woices + wb);
        }
        w = w + 1;
    }
    proof {
        assert(woices@.take(woices@.len() as int) =~= woices@);
    }
    Ok(())
}

/// Every block of `p` after the header, in order, ending with the end marker.
#[verifier::rlimit(50)]
fn write_blocks(p: &RPxTone) -> (r: Result<Vec<u8>, RPxToneIOError>)
    requires
        p.wf(),
    ensures
        match file_blocks(p) {
            Some(b) => r matches Ok(v) && v@ == b,
            None => r is Err,
        },
{
    let mut out: Vec<u8> = Vec::new();
    let name = p.name.as_str().as_bytes();
    let mut payload: Vec<u8> = Vec::new();
    append_bytes(&mut payload, name);
    assert(payload@ =~= encode_utf8(p.name@));
    write_block(&mut out, TAG_NAME, &payload)?;
    let comment = p.comment.as_str().as_bytes();
    let mut payload: Vec<u8> = Vec::new();
    append_bytes(&mut payload, comment);
    assert(payload@ =~= encode_utf8(p.comment@));
    write_block(&mut out, TAG_COMMENT, &payload)?;
    let master = master_payload(p)?;
    write_block(&mut out, TAG_MASTER, &master)?;
    if p.units.len() > u16::MAX as usize {
        return Err(RPxToneIOError::UnitOutOfOrder);
    }
    let mut count: Vec<u8> = Vec::new();
    write_u32(&mut count, p.units.len() as u32);
    assert(count@ =~= le32_bytes(p.units@.len() as u32));
    write_block(&mut out, TAG_NUM_UNIT, &count)?;
    write_units(&mut out, &p.units);
    write_woices(&mut out, &p.woices)?;
    let evs = &p.event_list.events;
    proof {
        crate::event::lemma_sorted_clock_order(evs@);
    }
    if evs.len() > u32::MAX as usize {
        return Err(RPxToneIOError::EventClockOverflow);
    }
    let mut event_block: Vec<u8> = Vec::new();
    write_u32(&mut event_block, evs.len() as u32);
    let encoded = encode_events(evs);
    append_bytes(&mut event_block, encoded.as_slice());
    assert(event_block@ =~= event_payload(evs@));
    write_block(&mut out, TAG_EVENT, &event_block)?;
    let empty: Vec<u8> = Vec::new();
    write_block(&mut out, TAG_END, &empty)?;
    proof {
        assert(empty@ =~= Seq::<u8>::empty());
        assert(out@ =~= file_blocks(p)->0);
    }
    Ok(out)
}

/// The header: the magic, then a zero version and a zero reserved field.
pub open spec fn header_bytes() -> Seq<u8> {
    le64_bytes(MAGIC_LO) + le64_bytes(MAGIC_HI) + seq![0u8, 0u8, 0u8, 0u8]
}

/// The 20-byte header: the magic, then a zero version and a zero reserved field.
#[verifier::rlimit(40)]
fn header() -> (r: Vec<u8>)
    ensures
        r@ == header_bytes(),
        header_ok(r@),
        r@.len() == 20,
{
    let mut out: Vec<u8> = Vec::new();
    write_u64(&mut out, MAGIC_LO);
    write_u64(&mut out, MAGIC_HI);
    let ghost head = out@;
    out.push(0);
    out.push(0);
    out.push(0);
    out.push(0);
    proof {
        let f = out@;
        assert forall|k: int| 0 <= k < 16 implies f[k] == head[k] by {}
        lemma_le_u64_same(f, head, 0);
        lemma_le_u64_same(f, head, 8);
        reveal(header_ok);
        assert(f =~= header_bytes());
    }
    out
}

proof fn lemma_header_prefix(h: Seq<u8>, rest: Seq<u8>)
    requires
        header_ok(h),
        h.len() == 20,
    ensures
        header_ok(h + rest),
{
    reveal(header_ok);
    let f = h + rest;
    assert forall|k: int| 0 <= k < 16 implies f[k] == h[k] by {}
    lemma_le_u64_same(f, h, 0);
    lemma_le_u64_same(f, h, 8);
}

impl RPxTone {
    /// The project as file bytes: header, then name, comment, master, unit count, the units,
    /// the instruments, the events, and the end marker. Fails when a field does not fit
    /// the format.
    pub fn write_bytes(&self) -> (r: Result<Vec<u8>, RPxToneIOError>)
        requires
            self.wf(),
        ensures
            match file_blocks(self) {
                Some(b) => r matches Ok(v) && v@ == header_bytes() + b,
                None => r is Err,
            },
            r matches Ok(b) ==> header_ok(b@) && b@.len() >= 20,
    {
        let blocks = write_blocks(self)?;
        let mut out = header();
        let ghost h = out@;
        append_bytes(&mut out, blocks.as_slice());
        proof {
            lemma_header_prefix(h, blocks@);
        }
        Ok(out)
    }
}

} // verus!

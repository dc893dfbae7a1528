//! Byte-level codecs of the project format: the variable-length integer and
//! little-endian fixed-width integers.
use vstd::prelude::*;

verus! {

/// 128 to the power `k`.
pub open spec fn pow128(k: nat) -> nat
    decreases k,
{
    if k == 0 {
        1
    } else {
        128 * pow128((k - 1) as nat)
    }
}

/// The number formed by the low seven bits of each byte, least significant group first.
pub open spec fn group_value(s: Seq<u8>) -> nat
    decreases s.len(),
{
    if s.len() == 0 {
        0
    } else {
        (s[0] % 128) as nat + 128 * group_value(s.drop_first())
    }
}

/// Index of the first byte at or after `i` (and below five) that ends a variable-length
/// integer, or five when the first five bytes all carry the continuation bit.
/// Stops at the end of `s` when the bytes run out first.
pub open spec fn cont_run(s: Seq<u8>, i: nat) -> nat
    decreases 5 - i,
{
    if i < 5 && i < s.len() && s[i as int] >= 128 {
        cont_run(s, i + 1)
    } else {
        i
    }
}

/// Decodes one variable-length integer at the start of `s`: the value and the number of
/// bytes it takes, or `None` when `s` ends before its last byte. Five bytes that all carry
/// the continuation bit decode to zero.
#[verifier::opaque]
pub open spec fn vr_decode(s: Seq<u8>) -> Option<(u32, nat)> {
    let c = cont_run(s, 0);
    if c == 5 {
        Some((0u32, 5nat))
    } else if c < s.len() {
        Some(((group_value(s.take((c + 1) as int)) % 0x1_0000_0000) as u32, c + 1))
    } else {
        None
    }
}

/// Decoding at byte offset `pos` of `s`; the offset returned is the one after the integer.
pub open spec fn vr_at(s: Seq<u8>, pos: nat) -> Option<(u32, nat)> {
    if pos <= s.len() {
        match vr_decode(s.skip(pos as int)) {
            Some((v, k)) => Some((v, pos + k)),
            None => None,
        }
    } else {
        None
    }
}

/// The shortest encoding of `n`: seven bits per byte, least significant first, with the
/// continuation bit on every byte but the last.
pub open spec fn vr_encode(n: nat) -> Seq<u8>
    decreases n,
{
    if n < 128 {
        seq![n as u8]
    } else {
        seq![(n % 128 + 128) as u8] + vr_encode(n / 128)
    }
}

/// The number of bytes of the shortest encoding of `n`.
pub open spec fn vr_size(n: nat) -> nat
    decreases n,
{
    if n < 128 {
        1
    } else {
        1 + vr_size(n / 128)
    }
}

proof fn lemma_group_value_push(s: Seq<u8>, x: u8)
    ensures
        group_value(s.push(x)) == group_value(s) + (x % 128) as nat * pow128(s.len()),
    decreases s.len(),
{
    if s.len() == 0 {
        assert(s.push(x).drop_first() =~= Seq::<u8>::empty());
        assert(group_value(Seq::<u8>::empty()) == 0);
    } else {
        assert(s.push(x).drop_first() =~= s.drop_first().push(x));
        lemma_group_value_push(s.drop_first(), x);
        let g = group_value(s.drop_first());
        let t = (x % 128) as nat;
        let p = pow128(s.drop_first().len());
        assert(s.push(x)[0] == s[0]);
        assert(pow128(s.len()) == 128 * p);
        assert(128 * (g + t * p) == 128 * g + t * (128 * p)) by (nonlinear_arith);
    }
}

proof fn lemma_group_value_bound(s: Seq<u8>)
    ensures
        group_value(s) < pow128(s.len()),
    decreases s.len(),
{
    if s.len() > 0 {
        lemma_group_value_bound(s.drop_first());
        let g = group_value(s.drop_first());
        let p = pow128(s.drop_first().len());
        assert(128 * g + 127 < 128 * p) by (nonlinear_arith)
            requires
                g < p,
        ;
    }
}

pub(crate) proof fn lemma_encode_value(n: nat)
    ensures
        group_value(vr_encode(n)) == n,
        vr_encode(n).len() == vr_size(n),
        vr_encode(n).len() >= 1,
        forall|j: int| 0 <= j < vr_encode(n).len() - 1 ==> vr_encode(n)[j] >= 128,
        vr_encode(n)[vr_encode(n).len() - 1] < 128,
    decreases n,
{
    if n < 128 {
        assert(vr_encode(n).drop_first() =~= Seq::<u8>::empty());
        assert(group_value(Seq::<u8>::empty()) == 0);
    } else {
        lemma_encode_value(n / 128);
        assert(vr_encode(n).drop_first() =~= vr_encode(n / 128));
    }
}

proof fn lemma_size_bound(n: nat, k: nat)
    requires
        1 <= k,
        n < pow128(k),
    ensures
        vr_size(n) <= k,
    decreases k,
{
    reveal_with_fuel(pow128, 2);
    if n >= 128 {
        assert(k > 1);
        let p = pow128((k - 1) as nat);
        assert(n / 128 < p) by (nonlinear_arith)
            requires
                n < 128 * p,
        ;
        lemma_size_bound(n / 128, (k - 1) as nat);
    }
}

proof fn lemma_pow128_values()
    ensures
        pow128(1) == 0x80,
        pow128(2) == 0x4000,
        pow128(3) == 0x20_0000,
        pow128(4) == 0x1000_0000,
        pow128(5) == 0x8_0000_0000,
{
    reveal_with_fuel(pow128, 6);
}

proof fn lemma_cont_run_encode(s: Seq<u8>, i: nat)
    requires
        i < s.len() <= 5,
        forall|j: int| i <= j < s.len() - 1 ==> s[j] >= 128,
        s[s.len() - 1] < 128,
    ensures
        cont_run(s, i) == s.len() - 1,
    decreases 5 - i,
{
    if i < s.len() - 1 {
        lemma_cont_run_encode(s, i + 1);
    }
}

/// Encoding then decoding gives the number back, and the decoder reads exactly the
/// bytes written.
pub proof fn lemma_vr_round_trip(n: u32)
    ensures
        vr_decode(vr_encode(n as nat)) == Some((n, vr_size(n as nat))),
        vr_size(n as nat) <= 5,
{
    reveal(vr_decode);
    let e = vr_encode(n as nat);
    lemma_encode_value(n as nat);
    lemma_pow128_values();
    lemma_size_bound(n as nat, 5);
    lemma_cont_run_encode(e, 0);
    assert(e.take(e.len() as int) =~= e);
}

/// No byte string decodes to `n` in fewer bytes than the encoder writes.
pub proof fn lemma_vr_encode_minimal(s: Seq<u8>, n: u32, k: nat)
    requires
        vr_decode(s) == Some((n, k)),
    ensures
        vr_size(n as nat) <= k,
{
    reveal(vr_decode);
    lemma_pow128_values();
    if k == 5 {
        lemma_size_bound(n as nat, 5);
    } else {
        let c = cont_run(s, 0);
        lemma_cont_run_bound(s, 0);
        lemma_group_value_bound(s.take((c + 1) as int));
        assert(group_value(s.take((c + 1) as int)) < 0x1000_0000) by {
            lemma_pow_mono((c + 1) as nat, 4);
        }
        lemma_size_bound(n as nat, k);
    }
}

proof fn lemma_pow_mono(a: nat, b: nat)
    requires
        a <= b,
    ensures
        pow128(a) <= pow128(b),
    decreases b,
{
    if a < b {
        lemma_pow_mono(a, (b - 1) as nat);
    }
}

proof fn lemma_cont_run_bound(s: Seq<u8>, i: nat)
    requires
        i <= 5,
    ensures
        i <= cont_run(s, i) <= 5,
        cont_run(s, i) <= s.len() || cont_run(s, i) == i,
    decreases 5 - i,
{
    if i < 5 && i < s.len() && s[i as int] >= 128 {
        lemma_cont_run_bound(s, i + 1);
    }
}

proof fn lemma_cont_run_at(s: Seq<u8>, i: nat, t: nat)
    requires
        i <= t < 5,
        t < s.len(),
        forall|j: int| i <= j < t ==> s[j] >= 128,
        s[t as int] < 128,
    ensures
        cont_run(s, i) == t,
    decreases t - i,
{
    if i < t {
        lemma_cont_run_at(s, i + 1, t);
    }
}

/// An encoded integer decodes the same whatever bytes follow it.
pub proof fn lemma_vr_decode_prefix(n: u32, rest: Seq<u8>)
    ensures
        vr_decode(vr_encode(n as nat) + rest) == Some((n, vr_size(n as nat))),
{
    reveal(vr_decode);
    let e = vr_encode(n as nat);
    let s = e + rest;
    lemma_encode_value(n as nat);
    lemma_vr_round_trip(n);
    let t = (e.len() - 1) as nat;
    assert forall|j: int| 0 <= j < t implies s[j] >= 128 by {
        assert(s[j] == e[j]);
    }
    assert(s[t as int] == e[t as int]);
    lemma_cont_run_at(s, 0, t);
    assert(s.take(t + 1int) =~= e);
    assert(e.take(e.len() as int) =~= e);
}

/// A decoded integer ends within the bytes.
pub proof fn lemma_vr_at_bound(s: Seq<u8>, pos: nat)
    ensures
        vr_at(s, pos) matches Some((v, p)) ==> p <= s.len(),
{
    reveal(vr_decode);
    if pos <= s.len() {
        let t = s.skip(pos as int);
        lemma_cont_run_bound(t, 0);
    }
}

/// Reads one variable-length integer at `pos`: the value and the offset after it, or
/// `None` when the bytes end first.
pub fn v_r(bytes: &[u8], pos: usize) -> (r: Option<(u32, usize)>)
    ensures
        match r {
            Some((v, p)) => vr_at(bytes@, pos as nat) == Some((v, p as nat)),
            None => vr_at(bytes@, pos as nat) is None,
        },
{
    proof {
        reveal(vr_decode);
    }
    if pos > bytes.len() {
        return None;
    }
    let ghost s = bytes@.skip(pos as int);
    let mut i: usize = 0;
    let mut acc: u64 = 0;
    let mut mult: u64 = 1;
    proof {
        lemma_pow128_values();
        assert(s.take(0) =~= Seq::<u8>::empty());
    }
    while i < 5
        invariant
            pos <= bytes.len(),
            s == bytes@.skip(pos as int),
            i <= 5,
            i <= s.len(),
            cont_run(s, 0) == cont_run(s, i as nat),
            acc == group_value(s.take(i as int)),
            mult == pow128(i as nat),
            pow128(1) == 0x80,
            pow128(2) == 0x4000,
            pow128(3) == 0x20_0000,
            pow128(4) == 0x1000_0000,
            pow128(5) == 0x8_0000_0000,
        decreases 5 - i,
    {
        proof {
            reveal(vr_decode);
        }
        if i >= bytes.len() - pos {
            proof {
                lemma_cont_run_bound(s, i as nat);
            }
            return None;
        }
        let b = bytes[pos + i];
        assert(b == s[i as int]);
        proof {
            lemma_group_value_push(s.take(i as int), b);
            assert(s.take(i as int).push(b) =~= s.take(i + 1));
            lemma_group_value_bound(s.take(i as int));
            lemma_pow_mono(i as nat, 4);
            assert((b % 128) as nat * mult <= 127 * 0x1000_0000) by (nonlinear_arith)
                requires
                    mult <= 0x1000_0000,
                    b % 128 <= 127,
            ;
        }
        acc = acc + (b % 128) as u64 * mult;
        if b < 128 {
            return Some(((acc % 0x1_0000_0000) as u32, pos + i + 1));
        }
        mult = mult * 128;
        i = i + 1;
    }
    Some((0, pos + 5))
}

/// Writes `n` as a variable-length integer in the fewest bytes.
pub fn v_w(n: u32) -> (r: Vec<u8>)
    ensures
        r@ == vr_encode(n as nat),
        r@.len() == vr_size(n as nat),
        vr_decode(r@) == Some((n, r@.len())),
{
    let mut out: Vec<u8> = Vec::new();
    let mut rest: u32 = n;
    while rest >= 128
        invariant
            out@ + vr_encode(rest as nat) == vr_encode(n as nat),
        decreases rest,
    {
        let b: u8 = (rest % 128 + 128) as u8;
        assert(vr_encode(rest as nat) =~= seq![b] + vr_encode((rest / 128) as nat));
        assert(out@.push(b) + vr_encode((rest / 128) as nat) =~= out@ + vr_encode(rest as nat));
        out.push(b);
        rest = rest / 128;
    }
    assert(out@.push(rest as u8) =~= out@ + vr_encode(rest as nat));
    out.push(rest as u8);
    proof {
        lemma_encode_value(n as nat);
        lemma_vr_round_trip(n);
    }
    out
}

/// A little-endian `u16` at `pos`.
pub open spec fn le_u16(s: Seq<u8>, pos: int) -> u16 {
    (s[pos] as nat + 0x100 * s[pos + 1] as nat) as u16
}

/// A little-endian `u32` at `pos`.
pub open spec fn le_u32(s: Seq<u8>, pos: int) -> u32 {
    (s[pos] as nat + 0x100 * s[pos + 1] as nat + 0x1_0000 * s[pos + 2] as nat + 0x100_0000
        * s[pos + 3] as nat) as u32
}

/// Reads a little-endian `u16` at `pos`, or `None` when fewer than two bytes are left.
pub fn read_u16(bytes: &[u8], pos: usize) -> (r: Option<u16>)
    ensures
        r is Some <==> pos + 2 <= bytes@.len(),
        r is Some ==> r->0 == le_u16(bytes@, pos as int),
{
    if pos > bytes.len() || bytes.len() - pos < 2 {
        return None;
    }
    Some(bytes[pos] as u16 + 0x100 * bytes[pos + 1] as u16)
}

/// Reads a little-endian `u32` at `pos`, or `None` when fewer than four bytes are left.
pub fn read_u32(bytes: &[u8], pos: usize) -> (r: Option<u32>)
    ensures
        r is Some <==> pos + 4 <= bytes@.len(),
        r is Some ==> r->0 == le_u32(bytes@, pos as int),
{
    if pos > bytes.len() || bytes.len() - pos < 4 {
        return None;
    }
    Some(
        bytes[pos] as u32 + 0x100 * bytes[pos + 1] as u32 + 0x1_0000 * bytes[pos + 2] as u32
            + 0x100_0000 * bytes[pos + 3] as u32,
    )
}

/// The two bytes of `v`, least significant first.
pub open spec fn le16_bytes(v: u16) -> Seq<u8> {
    seq![(v % 0x100) as u8, (v / 0x100) as u8]
}

/// The four bytes of `v`, least significant first.
pub open spec fn le32_bytes(v: u32) -> Seq<u8> {
    seq![(v % 0x100) as u8, (v / 0x100 % 0x100) as u8, (v / 0x1_0000 % 0x100) as u8, (v / 0x100_0000) as u8]
}

/// Appends `v` in little-endian order.
pub fn write_u16(out: &mut Vec<u8>, v: u16)
    ensures
        final(out)@ == old(out)@ + le16_bytes(v),
        final(out)@.len() == old(out)@.len() + 2,
        final(out)@.take(old(out)@.len() as int) == old(out)@,
        le_u16(final(out)@, old(out)@.len() as int) == v,
{
    out.push((v % 0x100) as u8);
    out.push((v / 0x100) as u8);
    assert(final(out)@.take(old(out)@.len() as int) =~= old(out)@);
    assert(final(out)@ =~= old(out)@ + le16_bytes(v));
}

/// Appends `v` in little-endian order.
pub fn write_u32(out: &mut Vec<u8>, v: u32)
    ensures
        final(out)@ == old(out)@ + le32_bytes(v),
        final(out)@.len() == old(out)@.len() + 4,
        final(out)@.take(old(out)@.len() as int) == old(out)@,
        le_u32(final(out)@, old(out)@.len() as int) == v,
{
    out.push((v % 0x100) as u8);
    out.push((v / 0x100 % 0x100) as u8);
    out.push((v / 0x1_0000 % 0x100) as u8);
    out.push((v / 0x100_0000) as u8);
    assert(final(out)@.take(old(out)@.len() as int) =~= old(out)@);
    assert(final(out)@ =~= old(out)@ + le32_bytes(v));
}

} // verus!

use vstd::prelude::*;

verus! {

/// The eight big-endian bytes of `n`.
pub open spec fn be_bytes(n: u64) -> Seq<u8> {
    seq![
        (n >> 56u64) as u8,
        (n >> 48u64) as u8,
        (n >> 40u64) as u8,
        (n >> 32u64) as u8,
        (n >> 24u64) as u8,
        (n >> 16u64) as u8,
        (n >> 8u64) as u8,
        n as u8,
    ]
}

/// The number that the first eight bytes of `b` give, read big-endian.
pub open spec fn be_value(b: Seq<u8>) -> u64
    recommends
        b.len() >= 8,
{
    (b[0] as u64) << 56u64 | (b[1] as u64) << 48u64 | (b[2] as u64) << 40u64 | (b[3] as u64)
        << 32u64 | (b[4] as u64) << 24u64 | (b[5] as u64) << 16u64 | (b[6] as u64) << 8u64
        | (b[7] as u64)
}

/// The frame that carries `payload`: its length in eight big-endian bytes,
/// then the payload itself.
pub open spec fn frame_of(payload: Seq<u8>) -> Seq<u8> {
    be_bytes(payload.len() as u64) + payload
}

/// The payload of the frame that `s` starts with, or `None` where `s` is
/// too short to hold a whole frame.
pub open spec fn frame_payload(s: Seq<u8>) -> Option<Seq<u8>> {
    if s.len() >= 8 && s.len() - 8 >= be_value(s) {
        Some(s.subrange(8, 8 + be_value(s) as int))
    } else {
        None
    }
}

/// Reading back the bytes of a number gives the number.
pub proof fn lemma_be_round_trip(n: u64)
    ensures
        be_value(be_bytes(n)) == n,
{
    let b = be_bytes(n);
    assert(b[0] == (n >> 56u64) as u8);
    assert(b[7] == n as u8);
    assert(((((n >> 56u64) as u8) as u64) << 56u64 | (((n >> 48u64) as u8) as u64) << 48u64
        | (((n >> 40u64) as u8) as u64) << 40u64 | (((n >> 32u64) as u8) as u64) << 32u64
        | (((n >> 24u64) as u8) as u64) << 24u64 | (((n >> 16u64) as u8) as u64) << 16u64
        | (((n >> 8u64) as u8) as u64) << 8u64 | ((n as u8) as u64)) == n) by (bit_vector);
}

/// A frame followed by anything is read back as the payload it carries.
pub proof fn lemma_frame_round_trip(payload: Seq<u8>, rest: Seq<u8>)
    requires
        payload.len() <= u64::MAX,
    ensures
        frame_payload(frame_of(payload) + rest) == Some(payload),
        frame_of(payload).len() == 8 + payload.len(),
{
    let s = frame_of(payload) + rest;
    lemma_be_round_trip(payload.len() as u64);
    assert(s.subrange(0, 8) =~= be_bytes(payload.len() as u64));
    assert(be_value(s) == be_value(be_bytes(payload.len() as u64)));
    assert(s.subrange(8, 8 + payload.len() as int) =~= payload);
}

/// A frame cut short at any byte is never read as a frame.
pub proof fn lemma_truncated_frame_rejected(payload: Seq<u8>, k: nat)
    requires
        payload.len() <= u64::MAX,
        k < frame_of(payload).len(),
    ensures
        frame_payload(frame_of(payload).take(k as int)) is None,
{
    let f = frame_of(payload);
    let s = f.take(k as int);
    lemma_be_round_trip(payload.len() as u64);
    if s.len() >= 8 {
        assert(be_value(s) == be_value(be_bytes(payload.len() as u64)));
    }
}

/// Appends the eight big-endian bytes of `value` to `out`.
pub fn write_u64_be(out: &mut Vec<u8>, value: u64)
    ensures
        final(out)@ == old(out)@ + be_bytes(value),
{
    let ghost start = out@;
    out.push((value >> 56u64) as u8);
    out.push((value >> 48u64) as u8);
    out.push((value >> 40u64) as u8);
    out.push((value >> 32u64) as u8);
    out.push((value >> 24u64) as u8);
    out.push((value >> 16u64) as u8);
    out.push((value >> 8u64) as u8);
    out.push(value as u8);
    assert(out@ =~= start + be_bytes(value));
}

/// Reads the first eight bytes of `b` as a big-endian number; `None` where
/// `b` holds fewer than eight bytes.
pub fn read_u64_be(b: &[u8]) -> (r: Option<u64>)
    ensures
        b@.len() < 8 ==> r is None,
        b@.len() >= 8 ==> r == Some(be_value(b@)),
{
    if b.len() < 8 {
        return None;
    }
    Some((b[0] as u64) << 56u64 | (b[1] as u64) << 48u64 | (b[2] as u64) << 40u64 | (b[3] as u64)
        << 32u64 | (b[4] as u64) << 24u64 | (b[5] as u64) << 16u64 | (b[6] as u64) << 8u64
        | (b[7] as u64))
}

/// Splits the frame at the start of `s`: its payload, and the number of
/// bytes that the whole frame takes. `None` where `s` holds no whole frame.
pub fn split_frame(s: &[u8]) -> (r: Option<(Vec<u8>, usize)>)
    ensures
        r is None <==> frame_payload(s@) is None,
        r matches Some((p, used)) ==> frame_payload(s@) == Some(p@) && used == 8 + p@.len()
            && used <= s@.len(),
{
    let n = match read_u64_be(s) {
        Some(n) => n,
        None => return None,
    };
    if ((s.len() - 8) as u64) < n {
        return None;
    }
    let end: usize = 8 + n as usize;
    let mut p: Vec<u8> = Vec::new();
    let mut i: usize = 8;
    while i < end
        invariant
            8 <= i <= end <= s@.len(),
            end == 8 + n,
            n == be_value(s@),
            p@ == s@.subrange(8, i as int),
        decreases end - i,
    {
        p.push(s[i]);
        i = i + 1;
        assert(p@ =~= s@.subrange(8, i as int));
    }
    Some((p, end))
}

} // verus!

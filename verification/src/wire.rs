//! The wire codec: base-128 varints, the 4-byte big-endian frame length
//! prefix, and the length-delimited binary encoding of a change event.
//!
//! A frame on the stream is 4 length bytes, then that many payload bytes
//! holding one encoded event; for `Create` and `Modify` with a non-zero
//! `file_size`, exactly `file_size` raw body bytes follow the payload.
//! The payload itself is a sequence of tagged fields: each field is a
//! varint tag, then either a varint value or a varint byte count followed
//! by that many bytes.

use vstd::prelude::*;
use vstd::arithmetic::div_mod::{lemma_fundamental_div_mod, lemma_fundamental_div_mod_converse};
use crate::event::{Action, SyncEvent, EventModel, action_code, action_of_code};

verus! {

/// A payload that could not be decoded into a change event.
#[derive(Clone, Copy, PartialEq, Eq, Structural, Debug)]
pub struct DecodeError;

/// The little-endian base-128 encoding of `n`: seven value bits per byte,
/// high bit set on every byte but the last.
pub open spec fn varint(n: nat) -> Seq<u8>
    decreases n,
{
    if n < 128 {
        seq![n as u8]
    } else {
        seq![(n % 128 + 128) as u8] + varint(n / 128)
    }
}

/// Parses a varint from the front of `s`, yielding the value and the
/// number of bytes consumed.
pub open spec fn parse_varint(s: Seq<u8>) -> Option<(nat, nat)>
    decreases s.len(),
{
    if s.len() == 0 {
        None
    } else if s[0] < 128 {
        Some((s[0] as nat, 1))
    } else {
        match parse_varint(s.drop_first()) {
            Some(p) => Some((((s[0] - 128) as nat + 128 * p.0) as nat, (p.1 + 1) as nat)),
            None => None,
        }
    }
}

/// Parsing an encoded varint from the front of any byte string consumes
/// exactly the encoding and yields the encoded value.
pub proof fn lemma_parse_varint_prefix(n: nat, rest: Seq<u8>)
    ensures
        parse_varint(varint(n) + rest) == Some((n, varint(n).len() as nat)),
        varint(n).len() >= 1,
    decreases n,
{
    let s = varint(n) + rest;
    if n < 128 {
        assert(s[0] == n as u8);
    } else {
        assert(s[0] == (n % 128 + 128) as u8);
        assert(n % 128 + 128 < 256);
        assert(s[0] >= 128);
        lemma_parse_varint_prefix(n / 128, rest);
        assert(s.drop_first() =~= varint(n / 128) + rest);
        lemma_fundamental_div_mod(n as int, 128);
        assert((s[0] - 128) as nat + 128 * (n / 128) == n);
    }
}

/// Big-endian bytes of a 32-bit frame length.
pub open spec fn be32(n: u32) -> Seq<u8> {
    seq![
        (n / 16777216) as u8,
        ((n / 65536) % 256) as u8,
        ((n / 256) % 256) as u8,
        (n % 256) as u8,
    ]
}

/// The value of 4 big-endian bytes.
pub open spec fn be32_val(s: Seq<u8>) -> nat
    recommends
        s.len() == 4,
{
    (s[0] as nat) * 16777216 + (s[1] as nat) * 65536 + (s[2] as nat) * 256 + (s[3] as nat)
}

/// Reading back the big-endian bytes of a length yields the length.
pub proof fn lemma_be32_roundtrip(n: u32)
    ensures
        be32(n).len() == 4,
        be32_val(be32(n)) == n,
{
    lemma_fundamental_div_mod(n as int, 16777216);
    lemma_fundamental_div_mod((n / 65536) as int, 256);
    lemma_fundamental_div_mod((n / 256) as int, 256);
    lemma_fundamental_div_mod(n as int, 65536);
    lemma_fundamental_div_mod(n as int, 256);
    assert(n / 65536 / 256 == n / 16777216) by {
        vstd::arithmetic::div_mod::lemma_div_denominator(n as int, 65536, 256);
    }
    assert(n / 256 / 256 == n / 65536) by {
        vstd::arithmetic::div_mod::lemma_div_denominator(n as int, 256, 256);
    }
}

/// A tagged varint-valued field.
pub open spec fn enc_varint_field(tag: u8, v: nat) -> Seq<u8> {
    seq![tag] + varint(v)
}

/// A tagged length-delimited field: tag, varint byte count, then the bytes.
pub open spec fn enc_chunk_field(tag: u8, data: Seq<u8>) -> Seq<u8> {
    seq![tag] + varint(data.len()) + data
}

/// The encoded payload of a change event: six tagged fields in ascending
/// tag order.
pub open spec fn spec_encode(m: EventModel) -> Seq<u8> {
    enc_varint_field(8, action_code(m.action)) + enc_chunk_field(18, m.file_path)
        + enc_chunk_field(26, m.new_path) + enc_varint_field(32, m.file_size as nat)
        + enc_chunk_field(42, m.checksum) + enc_varint_field(48, m.permissions as nat)
}

/// Parses a length-delimited chunk (varint byte count, then the bytes)
/// from the front of `s`, yielding the bytes and the total consumed.
pub open spec fn parse_chunk(s: Seq<u8>) -> Option<(Seq<u8>, nat)> {
    match parse_varint(s) {
        Some(p) => if p.1 + p.0 <= s.len() {
            Some((s.subrange(p.1 as int, (p.1 + p.0) as int), (p.1 + p.0) as nat))
        } else {
            None
        },
        None => None,
    }
}

/// Parsing an encoded chunk from the front of any byte string consumes
/// exactly the encoding and yields the chunk's bytes.
pub proof fn lemma_parse_chunk_prefix(data: Seq<u8>, rest: Seq<u8>)
    ensures
        parse_chunk(varint(data.len()) + data + rest) == Some((
            data,
            (varint(data.len()).len() + data.len()) as nat,
        )),
        varint(data.len()).len() >= 1,
{
    let s = varint(data.len()) + data + rest;
    lemma_parse_varint_prefix(data.len(), data + rest);
    assert(varint(data.len()) + (data + rest) =~= s);
    let u = varint(data.len()).len() as int;
    assert(s.subrange(u, u + data.len()) =~= data);
}

/// An event with every field at its default value.
pub open spec fn default_model() -> EventModel {
    EventModel {
        action: Action::Create,
        file_path: Seq::<u8>::empty(),
        new_path: Seq::<u8>::empty(),
        file_size: 0u64,
        checksum: Seq::<u8>::empty(),
        permissions: 0u32,
    }
}

/// Folds the tagged fields of `s` into `acc`, one at a time, later fields
/// overriding earlier ones.  `None` on an empty or unknown tag, a short
/// chunk, an out-of-range value, or trailing garbage.
pub open spec fn decode_fields(s: Seq<u8>, acc: EventModel) -> Option<EventModel>
    decreases s.len(),
{
    if s.len() == 0 {
        Some(acc)
    } else {
        match parse_varint(s) {
            None => None,
            Some(t) => if t.1 > s.len() {
                None
            } else {
                let r = s.skip(t.1 as int);
                if t.0 == 8 {
                    match parse_varint(r) {
                        None => None,
                        Some(v) => if v.1 > r.len() {
                            None
                        } else {
                            match action_of_code(v.0) {
                                Some(a) => decode_fields(
                                    r.skip(v.1 as int),
                                    EventModel { action: a, ..acc },
                                ),
                                None => None,
                            }
                        },
                    }
                } else if t.0 == 18 {
                    match parse_chunk(r) {
                        None => None,
                        Some(c) => if c.1 < 1 || c.1 > r.len() {
                            None
                        } else {
                            decode_fields(r.skip(c.1 as int), EventModel { file_path: c.0, ..acc })
                        },
                    }
                } else if t.0 == 26 {
                    match parse_chunk(r) {
                        None => None,
                        Some(c) => if c.1 < 1 || c.1 > r.len() {
                            None
                        } else {
                            decode_fields(r.skip(c.1 as int), EventModel { new_path: c.0, ..acc })
                        },
                    }
                } else if t.0 == 32 {
                    match parse_varint(r) {
                        None => None,
                        Some(v) => if v.1 > r.len() || v.0 >= 18446744073709551616 {
                            None
                        } else {
                            decode_fields(
                                r.skip(v.1 as int),
                                EventModel { file_size: v.0 as u64, ..acc },
                            )
                        },
                    }
                } else if t.0 == 42 {
                    match parse_chunk(r) {
                        None => None,
                        Some(c) => if c.1 < 1 || c.1 > r.len() {
                            None
                        } else {
                            decode_fields(r.skip(c.1 as int), EventModel { checksum: c.0, ..acc })
                        },
                    }
                } else if t.0 == 48 {
                    match parse_varint(r) {
                        None => None,
                        Some(v) => if v.1 > r.len() || v.0 >= 4294967296 {
                            None
                        } else {
                            decode_fields(
                                r.skip(v.1 as int),
                                EventModel { permissions: v.0 as u32, ..acc },
                            )
                        },
                    }
                } else {
                    None
                }
            },
        }
    }
}

/// The event a payload decodes to, if any.
pub open spec fn spec_decode(s: Seq<u8>) -> Option<EventModel> {
    decode_fields(s, default_model())
}

/// Round trip: decoding an encoded event yields the original field values.
#[verifier::rlimit(100)]
#[verifier::spinoff_prover]
pub proof fn lemma_decode_encode(m: EventModel)
    ensures
        spec_decode(spec_encode(m)) == Some(m),
{
    let f1 = enc_varint_field(8, action_code(m.action));
    let f2 = enc_chunk_field(18, m.file_path);
    let f3 = enc_chunk_field(26, m.new_path);
    let f4 = enc_varint_field(32, m.file_size as nat);
    let f5 = enc_chunk_field(42, m.checksum);
    let f6 = enc_varint_field(48, m.permissions as nat);
    let d0 = default_model();
    let d1 = EventModel { action: m.action, ..d0 };
    let d2 = EventModel { file_path: m.file_path, ..d1 };
    let d3 = EventModel { new_path: m.new_path, ..d2 };
    let d4 = EventModel { file_size: m.file_size, ..d3 };
    let d5 = EventModel { checksum: m.checksum, ..d4 };
    let d6 = EventModel { permissions: m.permissions, ..d5 };
    let s1 = spec_encode(m);
    let r1 = f2 + f3 + f4 + f5 + f6;
    let s2 = f2 + f3 + f4 + f5 + f6;
    let r2 = f3 + f4 + f5 + f6;
    let s3 = f3 + f4 + f5 + f6;
    let r3 = f4 + f5 + f6;
    let s4 = f4 + f5 + f6;
    let r4 = f5 + f6;
    let s5 = f5 + f6;
    let r5 = f6;
    let s6 = f6;
    let r6 = Seq::<u8>::empty();

    // Field 1: action.
    let ca = action_code(m.action);
    assert(s1[0] == 8);
    assert(s1.skip(1) =~= varint(ca) + r1);
    lemma_parse_varint_prefix(ca, r1);
    crate::event::lemma_action_code_roundtrip(m.action);
    assert((varint(ca) + r1).skip(varint(ca).len() as int) =~= s2);
    assert(decode_fields(s1, d0) == decode_fields(s2, d1));

    // Field 2: file_path.
    assert(s2[0] == 18);
    assert(s2.skip(1) =~= varint(m.file_path.len()) + m.file_path + r2);
    lemma_parse_chunk_prefix(m.file_path, r2);
    assert((varint(m.file_path.len()) + m.file_path + r2).skip(
        (varint(m.file_path.len()).len() + m.file_path.len()) as int) =~= s3);
    assert(decode_fields(s2, d1) == decode_fields(s3, d2));

    // Field 3: new_path.
    assert(s3[0] == 26);
    assert(s3.skip(1) =~= varint(m.new_path.len()) + m.new_path + r3);
    lemma_parse_chunk_prefix(m.new_path, r3);
    assert((varint(m.new_path.len()) + m.new_path + r3).skip(
        (varint(m.new_path.len()).len() + m.new_path.len()) as int) =~= s4);
    assert(decode_fields(s3, d2) == decode_fields(s4, d3));

    // Field 4: file_size.
    let cs = m.file_size as nat;
    assert(s4[0] == 32);
    assert(s4.skip(1) =~= varint(cs) + r4);
    lemma_parse_varint_prefix(cs, r4);
    assert((varint(cs) + r4).skip(varint(cs).len() as int) =~= s5);
    assert(decode_fields(s4, d3) == decode_fields(s5, d4));

    // Field 5: checksum.
    assert(s5[0] == 42);
    assert(s5.skip(1) =~= varint(m.checksum.len()) + m.checksum + r5);
    lemma_parse_chunk_prefix(m.checksum, r5);
    assert((varint(m.checksum.len()) + m.checksum + r5).skip(
        (varint(m.checksum.len()).len() + m.checksum.len()) as int) =~= s6);
    assert(decode_fields(s5, d4) == decode_fields(s6, d5));

    // Field 6: permissions.
    let cp = m.permissions as nat;
    assert(s6[0] == 48);
    assert(s6.skip(1) =~= varint(cp) + r6);
    lemma_parse_varint_prefix(cp, r6);
    assert((varint(cp) + r6).skip(varint(cp).len() as int) =~= r6);
    assert(decode_fields(s6, d5) == decode_fields(r6, d6));

    assert(decode_fields(r6, d6) == Some(d6));
    assert(d6 =~= m);
}

/// Appends the base-128 encoding of `v` to `out`.
pub fn encode_varint(v: u64, out: &mut Vec<u8>)
    ensures
        final(out)@ == old(out)@ + varint(v as nat),
{
    let mut n: u64 = v;
    while n >= 128
        invariant
            out@ + varint(n as nat) == old(out)@ + varint(v as nat),
        decreases n,
    {
        proof {
            assert(out@ + seq![(n as nat % 128 + 128) as u8] + varint(n as nat / 128)
                =~= out@ + varint(n as nat));
        }
        out.push((n % 128 + 128) as u8);
        n = n / 128;
    }
    proof {
        assert(out@ + seq![n as u8] =~= out@ + varint(n as nat));
    }
    out.push(n as u8);
}

/// Parses a base-128 varint from `s` at `pos`.  Fails where no varint
/// starts there or its value does not fit in 64 bits.
pub fn decode_varint(s: &[u8], pos: usize) -> (r: Result<(u64, usize), DecodeError>)
    requires
        pos <= s@.len(),
    ensures
        match r {
            Ok(p) => {
                &&& parse_varint(s@.skip(pos as int)) == Some((p.0 as nat, p.1 as nat))
                &&& 1 <= p.1
                &&& pos + p.1 <= s@.len()
            },
            Err(_) => match parse_varint(s@.skip(pos as int)) {
                Some(q) => q.0 >= 18446744073709551616,
                None => true,
            },
        },
    decreases s@.len() - pos,
{
    if pos >= s.len() {
        return Err(DecodeError);
    }
    let b = s[pos];
    proof {
        assert(s@.skip(pos as int)[0] == b);
    }
    if b < 128 {
        Ok((b as u64, 1))
    } else {
        proof {
            assert(s@.skip(pos as int).drop_first() =~= s@.skip(pos as int + 1));
        }
        match decode_varint(s, pos + 1) {
            Err(e) => Err(e),
            Ok((v, used)) => {
                if v >= 144115188075855872 {
                    // One more base-128 digit would not fit in 64 bits.
                    Err(DecodeError)
                } else {
                    Ok(((b - 128) as u64 + 128 * v, used + 1))
                }
            },
        }
    }
}

/// Appends all of `b` to `out`.
pub fn push_bytes(out: &mut Vec<u8>, b: &[u8])
    ensures
        final(out)@ == old(out)@ + b@,
{
    let mut i: usize = 0;
    proof {
        assert(out@ =~= old(out)@ + b@.subrange(0, 0));
    }
    while i < b.len()
        invariant
            i <= b@.len(),
            out@ == old(out)@ + b@.subrange(0, i as int),
        decreases b@.len() - i,
    {
        proof {
            assert(old(out)@ + b@.subrange(0, i as int) + seq![b@[i as int]]
                =~= old(out)@ + b@.subrange(0, i as int + 1));
        }
        out.push(b[i]);
        i = i + 1;
    }
    proof {
        assert(b@.subrange(0, b@.len() as int) =~= b@);
    }
}

/// The bytes of `s` from `start`, `len` of them, as a fresh vector.
pub fn copy_range(s: &[u8], start: usize, len: usize) -> (r: Vec<u8>)
    requires
        start + len <= s@.len(),
    ensures
        r@ == s@.subrange(start as int, start as int + len as int),
{
    let mut out: Vec<u8> = Vec::new();
    let mut i: usize = 0;
    let slen = s.len();
    while i < len
        invariant
            i <= len,
            start + len <= slen,
            slen == s@.len(),
            out@ =~= s@.subrange(start as int, start as int + i as int),
        decreases len - i,
    {
        out.push(s[start + i]);
        i = i + 1;
    }
    out
}

/// A fresh copy of the bytes of `b`.
pub fn copy_bytes(b: &[u8]) -> (r: Vec<u8>)
    ensures
        r@ == b@,
{
    let r = copy_range(b, 0, b.len());
    proof {
        assert(b@.subrange(0, b@.len() as int) =~= b@);
    }
    r
}

/// Byte-exact equality of two byte strings.
pub fn bytes_eq(a: &[u8], b: &[u8]) -> (r: bool)
    ensures
        r == (a@ == b@),
{
    if a.len() != b.len() {
        return false;
    }
    let n = a.len();
    let mut i: usize = 0;
    while i < n
        invariant
            i <= n,
            n == a@.len() == b@.len(),
            forall|j: int| 0 <= j < i ==> a@[j] == b@[j],
        decreases n - i,
    {
        if a[i] != b[i] {
            return false;
        }
        i = i + 1;
    }
    proof {
        assert(a@ =~= b@);
    }
    true
}

/// Encodes a change event into its wire payload.
pub fn encode_event(ev: &SyncEvent) -> (r: Vec<u8>)
    ensures
        r@ == spec_encode(ev.model()),
{
    let mut out: Vec<u8> = Vec::new();
    out.push(8);
    encode_varint(ev.action.code(), &mut out);
    out.push(18);
    encode_varint(ev.file_path.len() as u64, &mut out);
    push_bytes(&mut out, ev.file_path.as_slice());
    out.push(26);
    encode_varint(ev.new_path.len() as u64, &mut out);
    push_bytes(&mut out, ev.new_path.as_slice());
    out.push(32);
    encode_varint(ev.file_size, &mut out);
    out.push(42);
    encode_varint(ev.checksum.len() as u64, &mut out);
    push_bytes(&mut out, ev.checksum.as_slice());
    out.push(48);
    encode_varint(ev.permissions as u64, &mut out);
    proof {
        assert(out@ =~= spec_encode(ev.model()));
    }
    out
}

/// Decodes a wire payload into a change event.  Succeeds exactly on the
/// payloads that `spec_decode` accepts, and then returns the decoded
/// fields.
#[verifier::rlimit(60)]
pub fn decode_event(s: &[u8]) -> (r: Result<SyncEvent, DecodeError>)
    ensures
        match r {
            Ok(e) => spec_decode(s@) == Some(e.model()),
            Err(_) => spec_decode(s@) is None,
        },
{
    let mut ev = SyncEvent {
        action: Action::Create,
        file_path: Vec::new(),
        new_path: Vec::new(),
        file_size: 0,
        checksum: Vec::new(),
        permissions: 0,
    };
    let mut pos: usize = 0;
    let slen = s.len();
    proof {
        assert(ev.model() =~= default_model());
        assert(s@.skip(0) =~= s@);
    }
    while pos < slen
        invariant
            pos <= slen,
            slen == s@.len(),
            decode_fields(s@.skip(pos as int), ev.model()) == spec_decode(s@),
        decreases slen - pos,
    {
        let ghost pre = s@.skip(pos as int);
        let ghost m0 = ev.model();
        let (tag, used) = match decode_varint(s, pos) {
            Ok(p) => p,
            Err(_) => {
                return Err(DecodeError);
            },
        };
        let npos = pos + used;
        let ghost r = s@.skip(npos as int);
        proof {
            assert(pre.skip(used as int) =~= r);
            assert(r.len() < 18446744073709551616);
        }
        if tag == 8 {
            let (v, u2) = match decode_varint(s, npos) {
                Ok(p) => p,
                Err(_) => {
                    return Err(DecodeError);
                },
            };
            let a = match Action::from_code(v) {
                Some(a) => a,
                None => {
                    return Err(DecodeError);
                },
            };
            proof {
                assert(r.skip(u2 as int) =~= s@.skip((npos + u2) as int));
            }
            ev.action = a;
            proof {
                assert(ev.model() =~= EventModel { action: a, ..m0 });
            }
            pos = npos + u2;
        } else if tag == 18 || tag == 26 || tag == 42 {
            let (l, u2) = match decode_varint(s, npos) {
                Ok(p) => p,
                Err(_) => {
                    return Err(DecodeError);
                },
            };
            let rem = slen - npos - u2;
            if l > rem as u64 {
                return Err(DecodeError);
            }
            let ll = l as usize;
            let data = copy_range(s, npos + u2, ll);
            proof {
                assert(r.subrange(u2 as int, u2 as int + l as int) =~= s@.subrange(
                    (npos + u2) as int,
                    (npos + u2 + ll) as int,
                ));
                assert(r.skip((u2 + ll) as int) =~= s@.skip((npos + u2 + ll) as int));
            }
            if tag == 18 {
                ev.file_path = data;
                proof {
                    assert(ev.model() =~= EventModel { file_path: r.subrange(u2 as int, u2 as int + l as int), ..m0 });
                }
            } else if tag == 26 {
                ev.new_path = data;
                proof {
                    assert(ev.model() =~= EventModel { new_path: r.subrange(u2 as int, u2 as int + l as int), ..m0 });
                }
            } else {
                ev.checksum = data;
                proof {
                    assert(ev.model() =~= EventModel { checksum: r.subrange(u2 as int, u2 as int + l as int), ..m0 });
                }
            }
            pos = npos + u2 + ll;
        } else if tag == 32 {
            let (v, u2) = match decode_varint(s, npos) {
                Ok(p) => p,
                Err(_) => {
                    return Err(DecodeError);
                },
            };
            proof {
                assert(r.skip(u2 as int) =~= s@.skip((npos + u2) as int));
            }
            ev.file_size = v;
            proof {
                assert(ev.model() =~= EventModel { file_size: v, ..m0 });
            }
            pos = npos + u2;
        } else if tag == 48 {
            let (v, u2) = match decode_varint(s, npos) {
                Ok(p) => p,
                Err(_) => {
                    return Err(DecodeError);
                },
            };
            if v > 4294967295u64 {
                return Err(DecodeError);
            }
            proof {
                assert(r.skip(u2 as int) =~= s@.skip((npos + u2) as int));
            }
            ev.permissions = v as u32;
            proof {
                assert(ev.model() =~= EventModel { permissions: v as u32, ..m0 });
            }
            pos = npos + u2;
        } else {
            return Err(DecodeError);
        }
    }
    proof {
        assert(s@.skip(pos as int) =~= Seq::<u8>::empty());
    }
    Ok(ev)
}

/// A complete frame for an event: the 4-byte big-endian length of the
/// encoded payload, then the payload.  For `Create` and `Modify` the file
/// body follows separately on the stream.  `None` when the payload cannot
/// be framed because its length does not fit in 32 bits.
pub fn encode_frame(ev: &SyncEvent) -> (r: Option<Vec<u8>>)
    ensures
        match r {
            Some(f) => {
                &&& spec_encode(ev.model()).len() < 4294967296
                &&& f@ == be32(spec_encode(ev.model()).len() as u32) + spec_encode(ev.model())
                &&& f@.len() == 4 + spec_encode(ev.model()).len()
            },
            None => spec_encode(ev.model()).len() >= 4294967296,
        },
{
    let payload = encode_event(ev);
    if (payload.len() as u64) >= 4294967296u64 {
        return None;
    }
    let n = payload.len() as u32;
    let mut out: Vec<u8> = Vec::new();
    out.push((n / 16777216) as u8);
    out.push(((n / 65536) % 256) as u8);
    out.push(((n / 256) % 256) as u8);
    out.push((n % 256) as u8);
    push_bytes(&mut out, payload.as_slice());
    proof {
        assert(out@ =~= be32(n) + payload@);
    }
    Some(out)
}

/// A complete outbound transmission for an event that carries a file
/// body: the 4-byte big-endian payload length, the payload, then exactly
/// the body bytes, as one buffer, so that one socket write sends a whole
/// frame with nothing interleaved.  `None` when the body's length is not
/// the event's `file_size`, or the payload does not fit a 32-bit length.
pub fn encode_frame_with_body(ev: &SyncEvent, body: &[u8]) -> (r: Option<Vec<u8>>)
    ensures
        match r {
            Some(f) => {
                &&& body@.len() == ev.file_size
                &&& spec_encode(ev.model()).len() < 4294967296
                &&& f@ == be32(spec_encode(ev.model()).len() as u32) + spec_encode(ev.model())
                    + body@
                &&& f@.len() == 4 + spec_encode(ev.model()).len() + body@.len()
            },
            None => body@.len() != ev.file_size || spec_encode(ev.model()).len() >= 4294967296,
        },
{
    if (body.len() as u64) != ev.file_size {
        return None;
    }
    let payload = encode_event(ev);
    if (payload.len() as u64) >= 4294967296u64 {
        return None;
    }
    let n = payload.len() as u32;
    let mut out: Vec<u8> = Vec::new();
    out.push((n / 16777216) as u8);
    out.push(((n / 65536) % 256) as u8);
    out.push(((n / 256) % 256) as u8);
    out.push((n % 256) as u8);
    push_bytes(&mut out, payload.as_slice());
    push_bytes(&mut out, body);
    proof {
        assert(out@ =~= be32(n) + payload@ + body@);
    }
    Some(out)
}

/// Framing integrity: a frame is exactly 4 length bytes carrying the
/// payload's byte count, then the payload itself, with nothing in
/// between and nothing after.
pub proof fn lemma_frame_shape(payload: Seq<u8>)
    requires
        payload.len() < 4294967296,
    ensures
        ({
            let f = be32(payload.len() as u32) + payload;
            &&& f.len() == 4 + payload.len()
            &&& f.subrange(0, 4) == be32(payload.len() as u32)
            &&& f.skip(4) == payload
            &&& be32_val(f.subrange(0, 4)) == payload.len()
        }),
{
    let f = be32(payload.len() as u32) + payload;
    lemma_be32_roundtrip(payload.len() as u32);
    assert(f.subrange(0, 4) =~= be32(payload.len() as u32));
    assert(f.skip(4) =~= payload);
}

/// The frame length held in a 4-byte big-endian prefix.
pub fn parse_frame_len(b: &[u8]) -> (r: u32)
    requires
        b@.len() == 4,
    ensures
        r as nat == be32_val(b@),
        be32(r) == b@,
{
    let b0 = b[0];
    let b1 = b[1];
    let b2 = b[2];
    let b3 = b[3];
    let r = (b0 as u32) * 16777216 + (b1 as u32) * 65536 + (b2 as u32) * 256 + (b3 as u32);
    proof {
        lemma_fundamental_div_mod_converse(
            r as int, 16777216, b0 as int,
            (b1 as int) * 65536 + (b2 as int) * 256 + (b3 as int));
        lemma_fundamental_div_mod_converse(
            r as int, 65536, (b0 as int) * 256 + (b1 as int),
            (b2 as int) * 256 + (b3 as int));
        lemma_fundamental_div_mod_converse(
            r as int, 256, (b0 as int) * 65536 + (b1 as int) * 256 + (b2 as int), b3 as int);
        lemma_fundamental_div_mod_converse(
            ((b0 as int) * 256 + (b1 as int)), 256, b0 as int, b1 as int);
        lemma_fundamental_div_mod_converse(
            ((b0 as int) * 65536 + (b1 as int) * 256 + (b2 as int)), 256,
            (b0 as int) * 256 + (b1 as int), b2 as int);
        assert(be32(r) =~= b@);
    }
    r
}

} // verus!

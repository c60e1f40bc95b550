//! The fixed, self-describing binary encoding of the structured values
//! that cross the guest boundary: content identifiers, addresses and
//! event records. Decoding is strict: a malformed encoding is rejected
//! as a whole and never partially applied. Encoding then decoding any
//! well-formed value yields the value back.

use vstd::prelude::*;

use crate::types::Address;
use crate::types::AddressSpec;
use crate::types::CidBuf;
use crate::types::CidSpec;
use crate::types::EventRecord;
use crate::types::EventSpec;
use crate::types::clone_bytes;
use crate::types::EVENT_FLAG_MASK;
use crate::types::MAX_ADDR_PAYLOAD_LEN;
use crate::types::MAX_DIGEST_LEN;
use vstd::bytes::lemma_auto_spec_u64_to_from_le_bytes;
use vstd::bytes::spec_u64_from_le_bytes;
use vstd::bytes::spec_u64_to_le_bytes;
use vstd::bytes::u64_from_le_bytes;
use vstd::bytes::u64_to_le_bytes;
use vstd::slice::slice_subrange;
use vstd::slice::slice_to_vec;

verus! {

/// Appends the eight little-endian bytes of `x`.
pub fn push_u64(out: &mut Vec<u8>, x: u64)
    ensures
        final(out)@ == old(out)@ + spec_u64_to_le_bytes(x),
{
    let mut piece: Vec<u8> = u64_to_le_bytes(x);
    out.append(&mut piece);
}

/// Appends a copy of `src`.
pub fn push_bytes(out: &mut Vec<u8>, src: &Vec<u8>)
    ensures
        final(out)@ == old(out)@ + src@,
{
    let mut piece: Vec<u8> = clone_bytes(src);
    out.append(&mut piece);
}

/// Reads the little-endian integer held at `data[off..off + 8]`.
pub fn read_u64(data: &Vec<u8>, off: usize) -> (r: u64)
    requires
        off + 8 <= data@.len(),
    ensures
        r == spec_u64_from_le_bytes(data@.subrange(off as int, off as int + 8)),
{
    let dl: usize = data.len();
    assert(off + 8 <= dl);
    let sub: &[u8] = slice_subrange(data.as_slice(), off, off + 8);
    u64_from_le_bytes(sub)
}

/// Copies `data[off..off + len]`.
pub fn copy_range(data: &Vec<u8>, off: usize, len: usize) -> (r: Vec<u8>)
    requires
        off + len <= data@.len(),
    ensures
        r@ == data@.subrange(off as int, off as int + len as int),
{
    let dl: usize = data.len();
    assert(off + len <= dl);
    let sub: &[u8] = slice_subrange(data.as_slice(), off, off + len);
    slice_to_vec(sub)
}

// ---------------------------------------------------------------------
// Content identifiers
// ---------------------------------------------------------------------
/// The encoding of a content identifier: a version tag, the payload
/// codec, the hash function, the digest length, then the digest bytes.
pub open spec fn cid_bytes(c: CidSpec) -> Seq<u8> {
    spec_u64_to_le_bytes(1u64) + spec_u64_to_le_bytes(c.codec) + spec_u64_to_le_bytes(c.hash_code)
        + spec_u64_to_le_bytes(c.digest.len() as u64) + c.digest
}

/// Strict decoding of a content identifier starting at `off`: the decoded
/// value and the number of bytes consumed, or nothing if the bytes are
/// malformed or run past the end of `data`.
pub open spec fn decode_cid_spec(data: Seq<u8>, off: int) -> Option<(CidSpec, int)> {
    if off < 0 || off + 32 > data.len() {
        None
    } else {
        let version = spec_u64_from_le_bytes(data.subrange(off, off + 8));
        let codec = spec_u64_from_le_bytes(data.subrange(off + 8, off + 16));
        let hash_code = spec_u64_from_le_bytes(data.subrange(off + 16, off + 24));
        let digest_len = spec_u64_from_le_bytes(data.subrange(off + 24, off + 32));
        if version != 1 || digest_len > MAX_DIGEST_LEN || off + 32 + digest_len > data.len() {
            None
        } else {
            Some(
                (
                    CidSpec {
                        codec,
                        hash_code,
                        digest: data.subrange(off + 32, off + 32 + digest_len),
                    },
                    32 + digest_len as int,
                ),
            )
        }
    }
}

/// Encodes a content identifier.
pub fn encode_cid(c: &CidBuf) -> (r: Vec<u8>)
    ensures
        r@ == cid_bytes(c@),
        r@.len() == 32 + c@.digest.len(),
{
    proof {
        lemma_auto_spec_u64_to_from_le_bytes();
    }
    let mut out: Vec<u8> = Vec::new();
    push_u64(&mut out, 1);
    push_u64(&mut out, c.codec);
    push_u64(&mut out, c.hash_code);
    push_u64(&mut out, c.digest.len() as u64);
    push_bytes(&mut out, &c.digest);
    out
}

/// Strictly decodes a content identifier starting at `off`.
pub fn decode_cid(data: &Vec<u8>, off: usize) -> (r: Option<(CidBuf, usize)>)
    ensures
        r is Some <==> decode_cid_spec(data@, off as int) is Some,
        r is Some ==> {
            let (c, used) = r.unwrap();
            let (cs, us) = decode_cid_spec(data@, off as int).unwrap();
            c@ == cs && used == us && c@.wf()
        },
{
    proof {
        lemma_auto_spec_u64_to_from_le_bytes();
    }
    let dl: usize = data.len();
    if off > dl || dl - off < 32 {
        return None;
    }
    let version: u64 = read_u64(data, off);
    let codec: u64 = read_u64(data, off + 8);
    let hash_code: u64 = read_u64(data, off + 16);
    let digest_len: u64 = read_u64(data, off + 24);
    if version != 1 || digest_len > MAX_DIGEST_LEN as u64 {
        return None;
    }
    let dlen: usize = digest_len as usize;
    if dl - (off + 32) < dlen {
        return None;
    }
    let digest: Vec<u8> = copy_range(data, off + 32, dlen);
    Some((CidBuf { codec, hash_code, digest }, 32 + dlen))
}

/// Encoding a well-formed content identifier and decoding the result,
/// from any position in a larger buffer, yields the identifier back.
pub proof fn lemma_cid_round_trip(prefix: Seq<u8>, c: CidSpec, suffix: Seq<u8>)
    requires
        c.wf(),
    ensures
        decode_cid_spec(prefix + cid_bytes(c) + suffix, prefix.len() as int) == Some(
            (c, 32 + c.digest.len() as int),
        ),
{
    lemma_auto_spec_u64_to_from_le_bytes();
    let data = prefix + cid_bytes(c) + suffix;
    let off = prefix.len() as int;
    assert(cid_bytes(c).len() == 32 + c.digest.len());
    assert(data.subrange(off, off + 8) =~= spec_u64_to_le_bytes(1u64));
    assert(data.subrange(off + 8, off + 16) =~= spec_u64_to_le_bytes(c.codec));
    assert(data.subrange(off + 16, off + 24) =~= spec_u64_to_le_bytes(c.hash_code));
    assert(data.subrange(off + 24, off + 32) =~= spec_u64_to_le_bytes(c.digest.len() as u64));
    assert(data.subrange(off + 32, off + 32 + c.digest.len()) =~= c.digest);
    assert(decode_cid_spec(data, off).unwrap().0 =~= c);
}

// ---------------------------------------------------------------------
// Addresses
// ---------------------------------------------------------------------
/// The encoding of an address: a protocol byte, then either the eight
/// little-endian bytes of an ID, or a payload length byte and the
/// payload.
pub open spec fn address_bytes(a: AddressSpec) -> Seq<u8> {
    match a {
        AddressSpec::Id(i) => seq![0u8] + spec_u64_to_le_bytes(i),
        AddressSpec::Key { protocol, payload } => seq![protocol] + seq![payload.len() as u8]
            + payload,
    }
}

/// Strict decoding of an address starting at `off`.
pub open spec fn decode_address_spec(data: Seq<u8>, off: int) -> Option<(AddressSpec, int)> {
    if off < 0 || off >= data.len() {
        None
    } else {
        let protocol = data[off];
        if protocol == 0 {
            if off + 9 > data.len() {
                None
            } else {
                Some(
                    (
                        AddressSpec::Id(spec_u64_from_le_bytes(data.subrange(off + 1, off + 9))),
                        9,
                    ),
                )
            }
        } else if protocol <= 3 {
            if off + 2 > data.len() {
                None
            } else {
                let plen = data[off + 1];
                if plen > MAX_ADDR_PAYLOAD_LEN || off + 2 + plen > data.len() {
                    None
                } else {
                    Some(
                        (
                            AddressSpec::Key {
                                protocol,
                                payload: data.subrange(off + 2, off + 2 + plen),
                            },
                            2 + plen as int,
                        ),
                    )
                }
            }
        } else {
            None
        }
    }
}

/// Encodes a well-formed address.
pub fn encode_address(a: &Address) -> (r: Vec<u8>)
    requires
        a.wf(),
    ensures
        r@ == address_bytes(a@),
{
    let mut out: Vec<u8> = Vec::new();
    match a {
        Address::Id(i) => {
            out.push(0);
            push_u64(&mut out, *i);
        },
        Address::Key { protocol, payload } => {
            out.push(*protocol);
            out.push(payload.len() as u8);
            push_bytes(&mut out, payload);
        },
    }
    assert(out@ =~= address_bytes(a@));
    out
}

/// Strictly decodes an address starting at `off`.
pub fn decode_address(data: &Vec<u8>, off: usize) -> (r: Option<(Address, usize)>)
    ensures
        r is Some <==> decode_address_spec(data@, off as int) is Some,
        r is Some ==> {
            let (a, used) = r.unwrap();
            let (aspec, us) = decode_address_spec(data@, off as int).unwrap();
            a@ == aspec && used == us && a@.wf()
        },
{
    let dl: usize = data.len();
    if off >= dl {
        return None;
    }
    let protocol: u8 = data[off];
    if protocol == 0 {
        if dl - off < 9 {
            return None;
        }
        let id: u64 = read_u64(data, off + 1);
        Some((Address::Id(id), 9))
    } else if protocol <= 3 {
        if dl - off < 2 {
            return None;
        }
        let plen_byte: u8 = data[off + 1];
        if plen_byte as usize > MAX_ADDR_PAYLOAD_LEN {
            return None;
        }
        let plen: usize = plen_byte as usize;
        if dl - (off + 2) < plen {
            return None;
        }
        let payload: Vec<u8> = copy_range(data, off + 2, plen);
        Some((Address::Key { protocol, payload }, 2 + plen))
    } else {
        None
    }
}

/// Encoding a well-formed address and decoding the result, from any
/// position in a larger buffer, yields the address back.
pub proof fn lemma_address_round_trip(prefix: Seq<u8>, a: AddressSpec, suffix: Seq<u8>)
    requires
        a.wf(),
    ensures
        decode_address_spec(prefix + address_bytes(a) + suffix, prefix.len() as int) == Some(
            (a, address_bytes(a).len() as int),
        ),
{
    lemma_auto_spec_u64_to_from_le_bytes();
    let data = prefix + address_bytes(a) + suffix;
    let off = prefix.len() as int;
    match a {
        AddressSpec::Id(i) => {
            assert(address_bytes(a).len() == 9);
            assert(data[off] == 0u8);
            assert(data.subrange(off + 1, off + 9) =~= spec_u64_to_le_bytes(i));
        },
        AddressSpec::Key { protocol, payload } => {
            assert(address_bytes(a).len() == 2 + payload.len());
            assert(data[off] == protocol);
            assert(data[off + 1] == payload.len() as u8);
            assert(data.subrange(off + 2, off + 2 + payload.len()) =~= payload);
            assert(decode_address_spec(data, off).unwrap().0 =~= a);
        },
    }
}

// ---------------------------------------------------------------------
// Event records
// ---------------------------------------------------------------------
/// The encoding of an event record: flags, key length, key bytes, value
/// length, value bytes.
pub open spec fn event_bytes(e: EventSpec) -> Seq<u8> {
    spec_u64_to_le_bytes(e.flags) + spec_u64_to_le_bytes(e.key.len() as u64) + e.key
        + spec_u64_to_le_bytes(e.value.len() as u64) + e.value
}

/// Strict decoding of an event record starting at `off`. Unknown flag
/// bits are rejected.
pub open spec fn decode_event_spec(data: Seq<u8>, off: int) -> Option<(EventSpec, int)> {
    if off < 0 || off + 16 > data.len() {
        None
    } else {
        let flags = spec_u64_from_le_bytes(data.subrange(off, off + 8));
        let klen = spec_u64_from_le_bytes(data.subrange(off + 8, off + 16));
        if flags > EVENT_FLAG_MASK || off + 16 + klen + 8 > data.len() {
            None
        } else {
            let key = data.subrange(off + 16, off + 16 + klen);
            let vpos = off + 16 + klen;
            let vlen = spec_u64_from_le_bytes(data.subrange(vpos, vpos + 8));
            if vpos + 8 + vlen > data.len() {
                None
            } else {
                Some(
                    (
                        EventSpec { flags, key, value: data.subrange(vpos + 8, vpos + 8 + vlen) },
                        24 + klen + vlen,
                    ),
                )
            }
        }
    }
}

/// Encodes a well-formed event record.
pub fn encode_event(e: &EventRecord) -> (r: Vec<u8>)
    ensures
        r@ == event_bytes(e@),
{
    let mut out: Vec<u8> = Vec::new();
    push_u64(&mut out, e.flags);
    push_u64(&mut out, e.key.len() as u64);
    push_bytes(&mut out, &e.key);
    push_u64(&mut out, e.value.len() as u64);
    push_bytes(&mut out, &e.value);
    out
}

/// Strictly decodes an event record starting at `off`.
pub fn decode_event(data: &Vec<u8>, off: usize) -> (r: Option<(EventRecord, usize)>)
    ensures
        r is Some <==> decode_event_spec(data@, off as int) is Some,
        r is Some ==> {
            let (e, used) = r.unwrap();
            let (es, us) = decode_event_spec(data@, off as int).unwrap();
            e@ == es && used == us && e@.wf()
        },
{
    let dl: usize = data.len();
    if off > dl || dl - off < 16 {
        return None;
    }
    let flags: u64 = read_u64(data, off);
    let klen_u64: u64 = read_u64(data, off + 8);
    if flags > EVENT_FLAG_MASK {
        return None;
    }
    if (klen_u64 as u128) + 8 > (dl - (off + 16)) as u128 {
        return None;
    }
    let klen: usize = klen_u64 as usize;
    let key: Vec<u8> = copy_range(data, off + 16, klen);
    let vpos: usize = off + 16 + klen;
    let vlen_u64: u64 = read_u64(data, vpos);
    if (vlen_u64 as u128) > (dl - (vpos + 8)) as u128 {
        return None;
    }
    let vlen: usize = vlen_u64 as usize;
    let value: Vec<u8> = copy_range(data, vpos + 8, vlen);
    Some((EventRecord { flags, key, value }, 24 + klen + vlen))
}

/// Encoding a well-formed event record and decoding the result, from any
/// position in a larger buffer, yields the record back.
pub proof fn lemma_event_round_trip(prefix: Seq<u8>, e: EventSpec, suffix: Seq<u8>)
    requires
        e.wf(),
    ensures
        decode_event_spec(prefix + event_bytes(e) + suffix, prefix.len() as int) == Some(
            (e, 24 + e.key.len() + e.value.len() as int),
        ),
{
    lemma_auto_spec_u64_to_from_le_bytes();
    let data = prefix + event_bytes(e) + suffix;
    let off = prefix.len() as int;
    assert(event_bytes(e).len() == 24 + e.key.len() + e.value.len());
    assert(data.subrange(off, off + 8) =~= spec_u64_to_le_bytes(e.flags));
    assert(data.subrange(off + 8, off + 16) =~= spec_u64_to_le_bytes(e.key.len() as u64));
    assert(data.subrange(off + 16, off + 16 + e.key.len()) =~= e.key);
    let vpos = off + 16 + e.key.len();
    assert(data.subrange(vpos, vpos + 8) =~= spec_u64_to_le_bytes(e.value.len() as u64));
    assert(data.subrange(vpos + 8, vpos + 8 + e.value.len()) =~= e.value);
    assert(decode_event_spec(data, off).unwrap().0 =~= e);
}

} // verus!

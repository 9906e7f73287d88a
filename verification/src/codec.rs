use vstd::prelude::*;
use vstd::bytes::{
    lemma_auto_spec_u32_to_from_le_bytes, lemma_auto_spec_u64_to_from_le_bytes,
    spec_u32_from_le_bytes, spec_u32_to_le_bytes, spec_u64_from_le_bytes, spec_u64_to_le_bytes,
    u32_from_le_bytes, u32_to_le_bytes, u64_from_le_bytes, u64_to_le_bytes,
};
use vstd::slice::{slice_subrange, slice_to_vec};
use vstd::string::StringSliceAdditionalSpecFns;
use vstd::utf8::{
    decode_utf8, encode_utf8, encode_utf8_decode_utf8, encode_utf8_valid_utf8, valid_utf8,
};

use crate::property::{Error, Property, PropertyModel};

verus! {

/// Hard upper bound on the byte length of one encoded record. The encoder
/// fails loudly instead of producing anything longer, and the store never
/// holds a longer value.
pub const MAX_ENCODED_SIZE: usize = 1024;

/// The byte image of a record: id and price bits as 8-byte little-endian
/// words, then address, description and owner credential, each prefixed with
/// its byte length as a 4-byte little-endian word. Strings are carried as
/// their UTF-8 bytes.
pub open spec fn encode_spec(m: PropertyModel) -> Seq<u8> {
    let abytes = encode_utf8(m.address);
    let dbytes = encode_utf8(m.description);
    spec_u64_to_le_bytes(m.id) + spec_u64_to_le_bytes(m.price_bits)
        + spec_u32_to_le_bytes(abytes.len() as u32) + abytes
        + spec_u32_to_le_bytes(dbytes.len() as u32) + dbytes
        + spec_u32_to_le_bytes(m.owner_public_key.len() as u32) + m.owner_public_key
}

/// A length-prefixed field starting at `off` lies entirely within `b`.
pub open spec fn field_ok(b: Seq<u8>, off: int) -> bool {
    &&& off + 4 <= b.len()
    &&& off + 4 + field_len(b, off) <= b.len()
}

/// Byte length of the length-prefixed field starting at `off`.
pub open spec fn field_len(b: Seq<u8>, off: int) -> int {
    spec_u32_from_le_bytes(b.subrange(off, off + 4)) as int
}

/// Contents of the length-prefixed field starting at `off`.
pub open spec fn field_bytes(b: Seq<u8>, off: int) -> Seq<u8> {
    b.subrange(off + 4, off + 4 + field_len(b, off))
}

/// First position after the length-prefixed field starting at `off`.
pub open spec fn field_end(b: Seq<u8>, off: int) -> int {
    off + 4 + field_len(b, off)
}

/// The record a byte sequence stands for, or `None` where the bytes do not
/// follow the layout of `encode_spec` exactly: too short, a field running
/// past the end, trailing bytes, or string bytes that are not UTF-8.
pub open spec fn decode_spec(b: Seq<u8>) -> Option<PropertyModel> {
    if b.len() < 16 {
        None
    } else {
        let id = spec_u64_from_le_bytes(b.subrange(0, 8));
        let price_bits = spec_u64_from_le_bytes(b.subrange(8, 16));
        if !field_ok(b, 16) {
            None
        } else {
            let abytes = field_bytes(b, 16);
            let aend = field_end(b, 16);
            if !field_ok(b, aend) {
                None
            } else {
                let dbytes = field_bytes(b, aend);
                let dend = field_end(b, aend);
                if !field_ok(b, dend) {
                    None
                } else {
                    let obytes = field_bytes(b, dend);
                    let oend = field_end(b, dend);
                    if oend != b.len() || !valid_utf8(abytes) || !valid_utf8(dbytes) {
                        None
                    } else {
                        Some(
                            PropertyModel {
                                id,
                                address: decode_utf8(abytes),
                                price_bits,
                                description: decode_utf8(dbytes),
                                owner_public_key: obytes,
                            },
                        )
                    }
                }
            }
        }
    }
}

/// Round trip: decoding an encoded record gives the record back, for every
/// record whose encoded form fits the size bound.
pub proof fn lemma_round_trip(m: PropertyModel)
    requires
        encode_spec(m).len() <= MAX_ENCODED_SIZE,
    ensures
        decode_spec(encode_spec(m)) == Some(m),
{
    lemma_auto_spec_u64_to_from_le_bytes();
    lemma_auto_spec_u32_to_from_le_bytes();
    let abytes = encode_utf8(m.address);
    let dbytes = encode_utf8(m.description);
    let obytes = m.owner_public_key;
    let b = encode_spec(m);
    assert(b.len() == 28 + abytes.len() + dbytes.len() + obytes.len());
    assert(b.subrange(0, 8) =~= spec_u64_to_le_bytes(m.id));
    assert(b.subrange(8, 16) =~= spec_u64_to_le_bytes(m.price_bits));
    assert(b.subrange(16, 20) =~= spec_u32_to_le_bytes(abytes.len() as u32));
    assert(field_len(b, 16) == abytes.len());
    assert(field_bytes(b, 16) =~= abytes);
    let aend = field_end(b, 16);
    assert(aend == 20 + abytes.len());
    assert(b.subrange(aend, aend + 4) =~= spec_u32_to_le_bytes(dbytes.len() as u32));
    assert(field_len(b, aend) == dbytes.len());
    assert(field_bytes(b, aend) =~= dbytes);
    let dend = field_end(b, aend);
    assert(dend == 24 + abytes.len() + dbytes.len());
    assert(b.subrange(dend, dend + 4) =~= spec_u32_to_le_bytes(obytes.len() as u32));
    assert(field_len(b, dend) == obytes.len());
    assert(field_bytes(b, dend) =~= obytes);
    assert(field_end(b, dend) == b.len());
    encode_utf8_valid_utf8(m.address);
    encode_utf8_valid_utf8(m.description);
    encode_utf8_decode_utf8(m.address);
    encode_utf8_decode_utf8(m.description);
}

/// Relies on `String::from_utf8`: it succeeds exactly on valid UTF-8 input
/// and returns the string whose byte encoding is that input.
#[verifier::external_body]
pub(crate) fn string_from_utf8(bytes: Vec<u8>) -> (r: Option<String>)
    ensures
        r is Some <==> valid_utf8(bytes@),
        r matches Some(s) ==> s@ == decode_utf8(bytes@) && encode_utf8(s@) == bytes@,
{
    String::from_utf8(bytes).ok()
}

fn corrupt_error() -> (e: Error)
    ensures
        e is CorruptData,
{
    Error::CorruptData { msg: "stored bytes do not match the record encoding".to_owned() }
}

impl Property {
    /// Encode the record, or fail where the encoded form would exceed
    /// `MAX_ENCODED_SIZE`: the encoder never truncates, and a record the
    /// store cannot accommodate is a fatal allocation failure, not a
    /// recoverable validation error.
    pub fn to_bytes(&self) -> (r: Result<Vec<u8>, Error>)
        ensures
            r matches Ok(b) ==> b@ == encode_spec(self@) && b@.len() <= MAX_ENCODED_SIZE,
            r matches Err(e) ==> e is Allocation && encode_spec(self@).len() > MAX_ENCODED_SIZE,
    {
        let abytes: &[u8] = self.address.as_str().as_bytes();
        let dbytes: &[u8] = self.description.as_str().as_bytes();
        let alen = abytes.len();
        let dlen = dbytes.len();
        let olen = self.owner_public_key.len();
        proof {
            lemma_auto_spec_u64_to_from_le_bytes();
            lemma_auto_spec_u32_to_from_le_bytes();
            assert(encode_spec(self@).len() == 28 + abytes@.len() + dbytes@.len()
                + self.owner_public_key@.len());
        }
        if alen > MAX_ENCODED_SIZE || dlen > MAX_ENCODED_SIZE || olen > MAX_ENCODED_SIZE || 28
            + alen + dlen + olen > MAX_ENCODED_SIZE {
            return Err(
                Error::Allocation { msg: "the encoded record would exceed the size bound".to_owned() },
            );
        }
        let mut out: Vec<u8> = Vec::new();
        let mut idb = u64_to_le_bytes(self.id);
        out.append(&mut idb);
        let mut pb = u64_to_le_bytes(self.price_bits);
        out.append(&mut pb);
        let mut alb = u32_to_le_bytes(alen as u32);
        out.append(&mut alb);
        out.extend_from_slice(abytes);
        let mut dlb = u32_to_le_bytes(dlen as u32);
        out.append(&mut dlb);
        out.extend_from_slice(dbytes);
        let mut olb = u32_to_le_bytes(olen as u32);
        out.append(&mut olb);
        out.extend_from_slice(self.owner_public_key.as_slice());
        assert(out@ =~= encode_spec(self@));
        Ok(out)
    }

    /// Decode a stored byte sequence; every deviation from the layout of
    /// `encode_spec` is reported as corrupt data, never repaired.
    pub fn from_bytes(bytes: &[u8]) -> (r: Result<Property, Error>)
        ensures
            r matches Ok(p) ==> decode_spec(bytes@) == Some(p@),
            r matches Err(e) ==> e is CorruptData && decode_spec(bytes@) is None,
    {
        let n = bytes.len();
        if n < 20 {
            return Err(corrupt_error());
        }
        let id = u64_from_le_bytes(slice_subrange(bytes, 0, 8));
        let price_bits = u64_from_le_bytes(slice_subrange(bytes, 8, 16));
        let alen = u32_from_le_bytes(slice_subrange(bytes, 16, 20)) as usize;
        if n - 20 < alen {
            return Err(corrupt_error());
        }
        let aend = 20 + alen;
        let abytes = slice_to_vec(slice_subrange(bytes, 20, aend));
        if n - aend < 4 {
            return Err(corrupt_error());
        }
        let dlen = u32_from_le_bytes(slice_subrange(bytes, aend, aend + 4)) as usize;
        if n - (aend + 4) < dlen {
            return Err(corrupt_error());
        }
        let dend = aend + 4 + dlen;
        let dbytes = slice_to_vec(slice_subrange(bytes, aend + 4, dend));
        if n - dend < 4 {
            return Err(corrupt_error());
        }
        let olen = u32_from_le_bytes(slice_subrange(bytes, dend, dend + 4)) as usize;
        if n - (dend + 4) != olen {
            return Err(corrupt_error());
        }
        let owner_public_key = slice_to_vec(slice_subrange(bytes, dend + 4, dend + 4 + olen));
        let address = match string_from_utf8(abytes) {
            Some(s) => s,
            None => {
                return Err(corrupt_error());
            },
        };
        let description = match string_from_utf8(dbytes) {
            Some(s) => s,
            None => {
                return Err(corrupt_error());
            },
        };
        let p = Property { id, address, price_bits, description, owner_public_key };
        assert(decode_spec(bytes@) == Some(p@));
        Ok(p)
    }
}

} // verus!

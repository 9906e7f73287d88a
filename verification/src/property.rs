use vstd::prelude::*;

verus! {

/// Bits of the exponent field of an IEEE 754 double.
pub open spec fn f64_exponent_bits(bits: u64) -> u64 {
    (bits >> 52) & 0x7ff
}

/// Bits of the mantissa field of an IEEE 754 double.
pub open spec fn f64_mantissa_bits(bits: u64) -> u64 {
    bits & 0xf_ffff_ffff_ffff
}

/// A 64-bit float is NaN exactly when its exponent field is all ones and its
/// mantissa field is non-zero. Prices travel through the store as raw bits,
/// so the check is pure integer logic.
pub open spec fn is_nan_bits(bits: u64) -> bool {
    f64_exponent_bits(bits) == 0x7ff && f64_mantissa_bits(bits) != 0
}

/// Runtime NaN test on the raw bits of a 64-bit float.
pub fn price_is_nan(bits: u64) -> (r: bool)
    ensures
        r == is_nan_bits(bits),
{
    ((bits >> 52) & 0x7ff) == 0x7ff && (bits & 0xf_ffff_ffff_ffff) != 0
}

/// The one durable entity of the store. The price is carried as the raw bits
/// of a 64-bit float; callers that want a float convert at the boundary.
#[derive(Debug, PartialEq)]
pub struct Property {
    pub id: u64,
    pub address: String,
    pub price_bits: u64,
    pub description: String,
    pub owner_public_key: Vec<u8>,
}

/// Mathematical image of a `Property`: strings as character sequences, the
/// owner credential as a byte sequence.
pub struct PropertyModel {
    pub id: u64,
    pub address: Seq<char>,
    pub price_bits: u64,
    pub description: Seq<char>,
    pub owner_public_key: Seq<u8>,
}

impl View for Property {
    type V = PropertyModel;

    open spec fn view(&self) -> PropertyModel {
        PropertyModel {
            id: self.id,
            address: self.address@,
            price_bits: self.price_bits,
            description: self.description@,
            owner_public_key: self.owner_public_key@,
        }
    }
}

impl Clone for Property {
    fn clone(&self) -> (r: Self)
        ensures
            r@ == self@,
    {
        Property {
            id: self.id,
            address: self.address.clone(),
            price_bits: self.price_bits,
            description: self.description.clone(),
            owner_public_key: self.owner_public_key.clone(),
        }
    }
}

/// What a caller hands to `add_property` and `update_property`: a `Property`
/// without the id, which the store assigns itself.
pub struct PropertyPayload {
    pub address: String,
    pub price_bits: u64,
    pub description: String,
    pub owner_public_key: Vec<u8>,
}

/// Mathematical image of a `PropertyPayload`.
pub struct PayloadModel {
    pub address: Seq<char>,
    pub price_bits: u64,
    pub description: Seq<char>,
    pub owner_public_key: Seq<u8>,
}

impl View for PropertyPayload {
    type V = PayloadModel;

    open spec fn view(&self) -> PayloadModel {
        PayloadModel {
            address: self.address@,
            price_bits: self.price_bits,
            description: self.description@,
            owner_public_key: self.owner_public_key@,
        }
    }
}

/// Validation applied by `add_property`: every field must be filled in and
/// the price must not be NaN.
pub open spec fn payload_valid(p: PayloadModel) -> bool {
    &&& p.owner_public_key.len() > 0
    &&& p.address.len() > 0
    &&& p.description.len() > 0
    &&& !is_nan_bits(p.price_bits)
}

/// Validation applied by `update_property`: it rejects only when the address
/// and the description are empty and the price is NaN all at once.
pub open spec fn update_payload_valid(p: PayloadModel) -> bool {
    !(p.address.len() == 0 && is_nan_bits(p.price_bits) && p.description.len() == 0)
}

/// Everything an operation of the store can fail with.
///
/// `Validate`, `NotFound` and `Unauthorized` are recoverable by the caller;
/// `Allocation` (the durable space or the id space is exhausted) and
/// `CorruptData` (stored bytes do not decode) are fatal.
#[derive(Debug, PartialEq)]
pub enum Error {
    Validate { msg: String },
    NotFound { msg: String },
    Unauthorized { msg: String },
    Allocation { msg: String },
    CorruptData { msg: String },
}

} // verus!

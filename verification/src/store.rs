use vstd::prelude::*;

use crate::codec::{decode_spec, encode_spec, lemma_round_trip, MAX_ENCODED_SIZE};
use crate::property::{
    payload_valid, price_is_nan, update_payload_valid, Error, PayloadModel, Property,
    PropertyModel, PropertyPayload,
};
use crate::codec::string_from_utf8;
use crate::storage::{
    id_cell_value, record_map_model, space_counter, space_records, IdCell, MemorySpace, RecordMap,
    RegionAllocator, COUNTER_REGION_TAG, RECORDS_REGION_TAG,
};

verus! {

/// What a well-laid-out durable space holds: every stored value fits the
/// size bound and decodes to a record whose id equals its key, and every key
/// is below the stored counter. A store opens successfully exactly over such
/// a space.
pub open spec fn space_wf(space: MemorySpace) -> bool {
    forall|k: u64| #[trigger]
        space_records(space).contains_key(k) ==> {
            &&& space_records(space)[k].len() <= MAX_ENCODED_SIZE
            &&& decode_spec(space_records(space)[k]) is Some
            &&& decode_spec(space_records(space)[k]).unwrap().id == k
            &&& k < space_counter(space)
        }
}

/// Decimal digits of `n` as ASCII bytes, most significant first.
fn decimal_digits(n: u64) -> (r: Vec<u8>) {
    let mut rev: Vec<u8> = Vec::new();
    let mut m = n;
    if m == 0 {
        rev.push(48);
    }
    while m > 0
        decreases m,
    {
        rev.push((m % 10) as u8 + 48);
        m = m / 10;
    }
    let mut out: Vec<u8> = Vec::new();
    let mut i = rev.len();
    while i > 0
        invariant
            i <= rev@.len(),
        decreases i,
    {
        i -= 1;
        out.push(rev[i]);
    }
    out
}

/// An error message naming an id in decimal: `<prefix><id><suffix>`.
fn id_message(prefix: &str, id: u64, suffix: &str) -> (r: String) {
    let mut bytes: Vec<u8> = Vec::new();
    bytes.extend_from_slice(prefix.as_bytes());
    let digits = decimal_digits(id);
    bytes.extend_from_slice(digits.as_slice());
    bytes.extend_from_slice(suffix.as_bytes());
    match string_from_utf8(bytes) {
        Some(s) => s,
        // The texts assembled here are ASCII, so the decoding cannot fail at
        // run time; fall back to the bare prefix all the same.
        None => prefix.to_owned(),
    }
}

/// Identity verification stub: every credential passes. A placeholder for a
/// real signature check.
pub fn verify_owner_identity(_payload: &PropertyPayload) -> (r: bool)
    ensures
        r == true,
{
    true
}

/// The persistent record store: a durable id counter and a durable ordered
/// map from ids to encoded records, each in its own region of one durable
/// byte space.
pub struct Store {
    counter: IdCell,
    records: RecordMap,
    space: MemorySpace,
}

impl Store {
    /// The durable byte image of every stored record, by id.
    pub closed spec fn records_model(self) -> Map<u64, Seq<u8>> {
        record_map_model(self.records)
    }

    /// The id the next successful `add_property` will assign.
    pub closed spec fn next_id(self) -> u64 {
        id_cell_value(self.counter)
    }

    /// The record stored under a key, decoded.
    pub open spec fn record_at(self, k: u64) -> PropertyModel {
        decode_spec(self.records_model()[k]).unwrap()
    }

    /// Well-formedness: every stored value fits the size bound and decodes
    /// to a record whose id equals its key, and every key is below the
    /// counter, so the counter value is always fresh.
    pub open spec fn wf(self) -> bool {
        forall|k: u64| #[trigger]
            self.records_model().contains_key(k) ==> {
                &&& self.records_model()[k].len() <= MAX_ENCODED_SIZE
                &&& decode_spec(self.records_model()[k]) is Some
                &&& self.record_at(k).id == k
                &&& k < self.next_id()
            }
    }

    /// The record that `add_property` inserts for a payload.
    pub open spec fn added_model(self, p: PayloadModel) -> PropertyModel {
        PropertyModel {
            id: self.next_id(),
            address: p.address,
            price_bits: p.price_bits,
            description: p.description,
            owner_public_key: p.owner_public_key,
        }
    }

    /// The record that `update_property` stores for a payload: the stored
    /// owner is kept, everything else comes from the payload.
    pub open spec fn updated_model(self, id: u64, p: PayloadModel) -> PropertyModel {
        PropertyModel {
            id,
            address: p.address,
            price_bits: p.price_bits,
            description: p.description,
            owner_public_key: self.record_at(id).owner_public_key,
        }
    }

    /// The record that `transfer_property_ownership` stores: only the owner
    /// field differs from the stored record.
    pub open spec fn transferred_model(self, id: u64, owner: Seq<u8>) -> PropertyModel {
        PropertyModel {
            id: self.record_at(id).id,
            address: self.record_at(id).address,
            price_bits: self.record_at(id).price_bits,
            description: self.record_at(id).description,
            owner_public_key: owner,
        }
    }

    /// Open the store over a durable byte space: fresh space is formatted
    /// (counter 0, no records), formatted space is recovered. Every
    /// recovered record is checked against the layout before the store is
    /// handed out; a record that does not decode, whose id differs from its
    /// key, that exceeds the size bound, or that is not below the counter is
    /// corrupt data and is never masked or repaired.
    pub fn init(space: MemorySpace) -> (r: Result<Store, Error>)
        ensures
            r matches Ok(s) ==> s.wf() && s.next_id() == space_counter(space) && s.records_model()
                == space_records(space),
            r matches Err(e) ==> e is CorruptData,
            r is Ok <==> space_wf(space),
    {
        let allocator = RegionAllocator::init(&space);
        let counter = IdCell::init(allocator.region(COUNTER_REGION_TAG), 0);
        let records = RecordMap::init(allocator.region(RECORDS_REGION_TAG));
        let next = counter.get();
        let entries = records.entries();
        let ghost model = record_map_model(records);
        let mut i: usize = 0;
        while i < entries.len()
            invariant
                model == record_map_model(records),
                model == space_records(space),
                next == id_cell_value(counter),
                next == space_counter(space),
                i <= entries@.len(),
                forall|j: int|
                    #![trigger entries@[j]]
                    0 <= j < entries@.len() ==> model.contains_key(entries@[j].0) && entries@[j].1@
                        == model[entries@[j].0],
                forall|k: u64| #[trigger]
                    model.contains_key(k) ==> exists|j: int|
                        0 <= j < entries@.len() && #[trigger] entries@[j].0 == k,
                forall|j: int|
                    #![trigger entries@[j]]
                    0 <= j < i ==> {
                        &&& entries@[j].1@.len() <= MAX_ENCODED_SIZE
                        &&& decode_spec(entries@[j].1@) is Some
                        &&& decode_spec(entries@[j].1@).unwrap().id == entries@[j].0
                        &&& entries@[j].0 < next
                    },
            decreases entries@.len() - i,
        {
            let pair = &entries[i];
            if pair.1.len() > MAX_ENCODED_SIZE || pair.0 >= next {
                proof {
                    assert(space_records(space).contains_key(pair.0));
                    assert(!space_wf(space));
                }
                return Err(
                    Error::CorruptData { msg: "a stored record violates the store layout".to_owned() },
                );
            }
            match Property::from_bytes(pair.1.as_slice()) {
                Ok(p) => {
                    if p.id != pair.0 {
                        proof {
                            assert(space_records(space).contains_key(pair.0));
                            assert(decode_spec(space_records(space)[pair.0]).unwrap().id
                                != pair.0);
                            assert(!space_wf(space));
                        }
                        return Err(
                            Error::CorruptData {
                                msg: "a stored record violates the store layout".to_owned(),
                            },
                        );
                    }
                },
                Err(e) => {
                    proof {
                        assert(space_records(space).contains_key(pair.0));
                        assert(decode_spec(space_records(space)[pair.0]) is None);
                        assert(!space_wf(space));
                    }
                    return Err(e);
                },
            }
            i += 1;
        }
        let ghost gspace = space;
        let s = Store { counter, records, space };
        assert forall|k: u64| #[trigger] s.records_model().contains_key(k) implies {
            &&& s.records_model()[k].len() <= MAX_ENCODED_SIZE
            &&& decode_spec(s.records_model()[k]) is Some
            &&& s.record_at(k).id == k
            &&& k < s.next_id()
        } by {
            let j = choose|j: int| 0 <= j < entries@.len() && #[trigger] entries@[j].0 == k;
            assert(entries@[j].1@ == s.records_model()[k]);
        }
        assert(space_wf(gspace)) by {
            assert forall|k: u64| #[trigger] space_records(gspace).contains_key(k) implies {
                &&& space_records(gspace)[k].len() <= MAX_ENCODED_SIZE
                &&& decode_spec(space_records(gspace)[k]) is Some
                &&& decode_spec(space_records(gspace)[k]).unwrap().id == k
                &&& k < space_counter(gspace)
            } by {
                assert(s.records_model().contains_key(k));
            }
        }
        Ok(s)
    }

    /// Close the store and hand its durable space back, as across a process
    /// restart. Relies on ic-stable-structures writing every mutation
    /// through to the underlying memory before returning (the cell flushes
    /// on every `set`, the map writes its nodes as it goes), so a store
    /// opened over the returned space recovers exactly this store's counter
    /// and records.
    #[verifier::external_body]
    pub fn into_space(self) -> (r: MemorySpace)
        ensures
            space_counter(r) == self.next_id(),
            space_records(r) == self.records_model(),
    {
        self.space
    }

    /// All records, ascending by id; a store with no records reports
    /// `NotFound` rather than an empty listing.
    pub fn get_properties(&self) -> (r: Result<Vec<Property>, Error>)
        requires
            self.wf(),
        ensures
            r matches Err(e) ==> e is NotFound && forall|k: u64|
                !self.records_model().contains_key(k),
            r matches Ok(v) ==> {
                &&& v@.len() >= 1
                &&& forall|i: int, j: int|
                    #![trigger v@[i], v@[j]]
                    0 <= i < j < v@.len() ==> v@[i]@.id < v@[j]@.id
                &&& forall|i: int|
                    #![trigger v@[i]]
                    0 <= i < v@.len() ==> self.records_model().contains_key(v@[i]@.id) && v@[i]@
                        == self.record_at(v@[i]@.id)
                &&& forall|k: u64| #[trigger]
                    self.records_model().contains_key(k) ==> exists|i: int|
                        0 <= i < v@.len() && #[trigger] v@[i]@.id == k
            },
    {
        let entries = self.records.entries();
        if entries.len() == 0 {
            return Err(Error::NotFound { msg: "No properties found".to_owned() });
        }
        let mut out: Vec<Property> = Vec::new();
        let mut i: usize = 0;
        while i < entries.len()
            invariant
                self.wf(),
                i <= entries@.len(),
                out@.len() == i,
                forall|a: int, b: int|
                    #![trigger entries@[a], entries@[b]]
                    0 <= a < b < entries@.len() ==> entries@[a].0 < entries@[b].0,
                forall|a: int|
                    #![trigger entries@[a]]
                    0 <= a < entries@.len() ==> self.records_model().contains_key(entries@[a].0)
                        && entries@[a].1@ == self.records_model()[entries@[a].0],
                forall|k: u64| #[trigger]
                    self.records_model().contains_key(k) ==> exists|a: int|
                        0 <= a < entries@.len() && #[trigger] entries@[a].0 == k,
                forall|a: int|
                    #![trigger out@[a]]
                    0 <= a < i ==> out@[a]@.id == entries@[a].0 && out@[a]@ == self.record_at(
                        entries@[a].0,
                    ),
            decreases entries@.len() - i,
        {
            let pair = &entries[i];
            match Property::from_bytes(pair.1.as_slice()) {
                Ok(p) => {
                    proof {
                        assert(self.records_model().contains_key(pair.0));
                        assert(p@ == self.record_at(pair.0));
                    }
                    out.push(p);
                },
                Err(e) => {
                    proof {
                        assert(self.records_model().contains_key(pair.0));
                        assert(false);
                    }
                    return Err(e);
                },
            }
            i += 1;
        }
        proof {
            assert forall|a: int, b: int|
                #![trigger out@[a], out@[b]]
                0 <= a < b < out@.len() implies out@[a]@.id < out@[b]@.id by {
                assert(entries@[a].0 < entries@[b].0);
            }
            assert forall|k: u64| #[trigger]
                self.records_model().contains_key(k) implies exists|a: int|
                0 <= a < out@.len() && #[trigger] out@[a]@.id == k by {
                let a = choose|a: int| 0 <= a < entries@.len() && #[trigger] entries@[a].0 == k;
                assert(out@[a]@.id == k);
            }
        }
        Ok(out)
    }

    /// Point lookup by id.
    pub fn get_property_by_id(&self, id: u64) -> (r: Result<Property, Error>)
        requires
            self.wf(),
        ensures
            r matches Ok(p) ==> self.records_model().contains_key(id) && p@ == self.record_at(id),
            r matches Err(e) ==> e is NotFound && !self.records_model().contains_key(id),
    {
        match self.records.get(id) {
            Some(bytes) => match Property::from_bytes(bytes.as_slice()) {
                Ok(p) => Ok(p),
                Err(e) => {
                    proof {
                        assert(false);
                    }
                    Err(e)
                },
            },
            None => Err(Error::NotFound { msg: id_message("Property with ID = ", id, " not found") }),
        }
    }

    /// Validate the payload, allocate a fresh id, and insert the record.
    pub fn add_property(&mut self, payload: PropertyPayload) -> (r: Result<Property, Error>)
        requires
            old(self).wf(),
        ensures
            final(self).wf(),
            final(self).next_id() >= old(self).next_id(),
            r matches Ok(p) ==> {
                &&& payload_valid(payload@)
                &&& old(self).next_id() < u64::MAX
                &&& p@ == old(self).added_model(payload@)
                &&& final(self).next_id() == old(self).next_id() + 1
                &&& final(self).records_model() == old(self).records_model().insert(
                    p@.id,
                    encode_spec(p@),
                )
            },
            r matches Err(e) ==> *final(self) == *old(self) && ((e is Validate && !payload_valid(
                payload@,
            )) || (e is Allocation && payload_valid(payload@) && (encode_spec(
                old(self).added_model(payload@),
            ).len() > MAX_ENCODED_SIZE || old(self).next_id() == u64::MAX))),
            payload_valid(payload@) && encode_spec(old(self).added_model(payload@)).len()
                <= MAX_ENCODED_SIZE && old(self).next_id() < u64::MAX ==> r is Ok,
    {
        if payload.owner_public_key.len() == 0 || payload.address.as_str().is_empty()
            || payload.description.as_str().is_empty() || price_is_nan(payload.price_bits) {
            return Err(
                Error::Validate { msg: "Please fill in all the required fields".to_owned() },
            );
        }
        if !verify_owner_identity(&payload) {
            return Err(Error::Unauthorized { msg: "Invalid owner identity".to_owned() });
        }
        let current = self.counter.get();
        let property = Property {
            id: current,
            address: payload.address,
            price_bits: payload.price_bits,
            description: payload.description,
            owner_public_key: payload.owner_public_key,
        };
        let bytes = match property.to_bytes() {
            Ok(b) => b,
            Err(e) => {
                return Err(e);
            },
        };
        if current == u64::MAX {
            return Err(Error::Allocation { msg: "the id space is exhausted".to_owned() });
        }
        let _prev = self.counter.set(current + 1);
        self.records.insert(current, bytes);
        proof {
            lemma_round_trip(property@);
        }
        Ok(property)
    }

    /// Overwrite the address, price and description of a stored record,
    /// keeping its id and owner.
    pub fn update_property(&mut self, id: u64, payload: PropertyPayload) -> (r: Result<
        Property,
        Error,
    >)
        requires
            old(self).wf(),
        ensures
            final(self).wf(),
            final(self).next_id() == old(self).next_id(),
            r matches Ok(p) ==> {
                &&& update_payload_valid(payload@)
                &&& old(self).records_model().contains_key(id)
                &&& p@ == old(self).updated_model(id, payload@)
                &&& final(self).records_model() == old(self).records_model().insert(
                    id,
                    encode_spec(p@),
                )
            },
            r matches Err(e) ==> *final(self) == *old(self) && ((e is Validate
                && !update_payload_valid(payload@)) || (e is NotFound && update_payload_valid(
                payload@,
            ) && !old(self).records_model().contains_key(id)) || (e is Allocation
                && update_payload_valid(payload@) && old(self).records_model().contains_key(id)
                && encode_spec(old(self).updated_model(id, payload@)).len() > MAX_ENCODED_SIZE)),
            update_payload_valid(payload@) && old(self).records_model().contains_key(id)
                && encode_spec(old(self).updated_model(id, payload@)).len() <= MAX_ENCODED_SIZE
                ==> r is Ok,
    {
        if payload.address.as_str().is_empty() && price_is_nan(payload.price_bits)
            && payload.description.as_str().is_empty() {
            return Err(
                Error::Validate { msg: "You cannot leave all leave all fields empty".to_owned() },
            );
        }
        let bytes = match self.records.get(id) {
            Some(b) => b,
            None => {
                return Err(
                    Error::NotFound { msg: id_message("Property with id = ", id, " not found ") },
                );
            },
        };
        let stored = match Property::from_bytes(bytes.as_slice()) {
            Ok(p) => p,
            Err(e) => {
                proof {
                    assert(false);
                }
                return Err(e);
            },
        };
        if !verify_owner_identity(&payload) {
            return Err(Error::Unauthorized { msg: "Invalid owner identity".to_owned() });
        }
        let updated = Property {
            id,
            address: payload.address,
            price_bits: payload.price_bits,
            description: payload.description,
            owner_public_key: stored.owner_public_key,
        };
        let ubytes = match updated.to_bytes() {
            Ok(b) => b,
            Err(e) => {
                return Err(e);
            },
        };
        self.records.insert(id, ubytes);
        proof {
            lemma_round_trip(updated@);
        }
        Ok(updated)
    }

    /// Remove a record and hand it back.
    pub fn delete_property(&mut self, id: u64) -> (r: Result<Property, Error>)
        requires
            old(self).wf(),
        ensures
            final(self).wf(),
            final(self).next_id() == old(self).next_id(),
            final(self).records_model() == old(self).records_model().remove(id),
            r matches Ok(p) ==> old(self).records_model().contains_key(id) && p@ == old(
                self,
            ).record_at(id),
            r matches Err(e) ==> e is NotFound && !old(self).records_model().contains_key(id),
    {
        let removed = match self.records.remove(id) {
            Some(b) => b,
            None => {
                return Err(
                    Error::NotFound { msg: id_message("Property with id = ", id, " not found") },
                );
            },
        };
        match Property::from_bytes(removed.as_slice()) {
            Ok(p) => Ok(p),
            Err(e) => {
                proof {
                    assert(false);
                }
                Err(e)
            },
        }
    }

    /// Overwrite only the owner credential of a stored record.
    pub fn transfer_property_ownership(&mut self, id: u64, new_owner: Vec<u8>) -> (r: Result<
        Property,
        Error,
    >)
        requires
            old(self).wf(),
        ensures
            final(self).wf(),
            final(self).next_id() == old(self).next_id(),
            r matches Ok(p) ==> {
                &&& old(self).records_model().contains_key(id)
                &&& p@ == old(self).transferred_model(id, new_owner@)
                &&& final(self).records_model() == old(self).records_model().insert(
                    id,
                    encode_spec(p@),
                )
            },
            r matches Err(e) ==> *final(self) == *old(self) && ((e is NotFound && !old(
                self,
            ).records_model().contains_key(id)) || (e is Allocation && old(
                self,
            ).records_model().contains_key(id) && encode_spec(
                old(self).transferred_model(id, new_owner@),
            ).len() > MAX_ENCODED_SIZE)),
            old(self).records_model().contains_key(id) && encode_spec(
                old(self).transferred_model(id, new_owner@),
            ).len() <= MAX_ENCODED_SIZE ==> r is Ok,
    {
        let bytes = match self.records.get(id) {
            Some(b) => b,
            None => {
                return Err(
                    Error::NotFound { msg: id_message("Property with id = ", id, " not found") },
                );
            },
        };
        let stored = match Property::from_bytes(bytes.as_slice()) {
            Ok(p) => p,
            Err(e) => {
                proof {
                    assert(false);
                }
                return Err(e);
            },
        };
        let transferred = Property {
            id: stored.id,
            address: stored.address,
            price_bits: stored.price_bits,
            description: stored.description,
            owner_public_key: new_owner,
        };
        let tbytes = match transferred.to_bytes() {
            Ok(b) => b,
            Err(e) => {
                return Err(e);
            },
        };
        self.records.insert(id, tbytes);
        proof {
            lemma_round_trip(transferred@);
        }
        Ok(transferred)
    }
}

/// Id monotonicity: whatever happens between two successful additions, the
/// second assigned id is strictly greater than the first, and an id about to
/// be assigned is never a key of the store. `add_property` ensures that the
/// counter rises by one on success, and every operation ensures that it
/// never falls, so the premises below hold of any interleaving of
/// operations, deletions included.
pub proof fn lemma_id_monotonic(s0: Store, id0: u64, s1: Store, s2: Store, id1: u64)
    requires
        s2.wf(),
        id0 == s0.next_id(),
        s1.next_id() == s0.next_id() + 1,
        s2.next_id() >= s1.next_id(),
        id1 == s2.next_id(),
    ensures
        id1 > id0,
        !s2.records_model().contains_key(id1),
{
    if s2.records_model().contains_key(id1) {
        assert(id1 < s2.next_id());
    }
}

/// Lookup after insert: once `add_property` has stored a record, the store
/// maps its id to exactly that record, so `get_property_by_id` returns it.
pub proof fn lemma_lookup_after_add(pre: Store, post: Store, p: PropertyModel)
    requires
        post.records_model() == pre.records_model().insert(p.id, encode_spec(p)),
        encode_spec(p).len() <= MAX_ENCODED_SIZE,
    ensures
        post.records_model().contains_key(p.id),
        post.record_at(p.id) == p,
{
    lemma_round_trip(p);
}

/// Restart durability: a well-formed store's contents form a well-laid-out
/// space. The space `into_space` hands back carries exactly the store's
/// counter and records, so by this lemma it satisfies `space_wf`, and
/// `Store::init` over it is bound to succeed and recover the same state.
pub proof fn lemma_reopen_after_close(s: Store, space: MemorySpace)
    requires
        s.wf(),
        space_counter(space) == s.next_id(),
        space_records(space) == s.records_model(),
    ensures
        space_wf(space),
{
    assert forall|k: u64| #[trigger] space_records(space).contains_key(k) implies {
        &&& space_records(space)[k].len() <= MAX_ENCODED_SIZE
        &&& decode_spec(space_records(space)[k]) is Some
        &&& decode_spec(space_records(space)[k]).unwrap().id == k
        &&& k < space_counter(space)
    } by {
        assert(s.records_model().contains_key(k));
    }
}

/// Delete removes: once `delete_property` has removed a key, the store no
/// longer contains it, so `get_property_by_id` reports `NotFound`.
pub proof fn lemma_delete_removes(pre: Store, post: Store, id: u64)
    requires
        post.records_model() == pre.records_model().remove(id),
    ensures
        !post.records_model().contains_key(id),
{
}

} // verus!

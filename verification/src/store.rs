use vstd::prelude::*;

use std::collections::HashMap;

use crate::crypto::CipherRecord;
use crate::crypto::TAG_BYTES;
use crate::errors::UploadError;

verus! {

broadcast use vstd::std_specs::hash::group_hash_axioms;

/// One persisted object: an opaque identifier assigned once at upload time,
/// the caller-supplied name kept for display only (never as a storage key),
/// the encrypted payload with its key material, and the plaintext size.
/// Objects are immutable once stored.
pub struct StoredObject {
    pub id: u128,
    pub name: String,
    pub record: CipherRecord,
    pub size: usize,
}

impl StoredObject {
    /// The display name is non-empty, the payload is non-empty, the key
    /// material has the sizes the cipher demands, and the ciphertext is
    /// exactly one authentication tag longer than the recorded plaintext
    /// size.
    pub open spec fn wf(self) -> bool {
        &&& self.name@.len() > 0
        &&& self.size > 0
        &&& self.record.keyed()
        &&& self.record.ciphertext@.len() == self.size + TAG_BYTES
    }
}

/// The object store: ciphertext and key material, indexed by opaque
/// identifier only. Nothing in here is ever keyed by a caller-supplied name.
pub struct ObjectStore {
    objects: HashMap<u128, StoredObject>,
}

impl View for ObjectStore {
    type V = Map<u128, StoredObject>;

    closed spec fn view(&self) -> Map<u128, StoredObject> {
        self.objects@
    }
}

impl ObjectStore {
    /// Every stored object is well formed and indexed by its own identifier.
    pub open spec fn wf(self) -> bool {
        forall|k: u128| #[trigger] self@.contains_key(k) ==> self@[k].wf() && self@[k].id == k
    }

    /// An empty store.
    pub fn new() -> (r: ObjectStore)
        ensures
            r.wf(),
            r@ == Map::<u128, StoredObject>::empty(),
    {
        ObjectStore { objects: HashMap::new() }
    }

    /// How many objects the store holds.
    pub fn len(&self) -> (r: usize)
        ensures
            r == self@.len(),
    {
        self.objects.len()
    }

    /// Whether an object is stored under this identifier.
    pub fn contains(&self, id: u128) -> (r: bool)
        ensures
            r == self@.contains_key(id),
    {
        self.objects.contains_key(&id)
    }

    /// Look an object up by identifier.
    pub fn get(&self, id: u128) -> (r: Option<&StoredObject>)
        ensures
            match r {
                Some(obj) => self@.contains_key(id) && *obj == self@[id],
                None => !self@.contains_key(id),
            },
    {
        self.objects.get(&id)
    }

    /// Persist one object under its identifier. An identifier already in
    /// use is refused and the store is left unchanged: identifiers are
    /// allocated fresh per object, so this is a defensive invariant, never
    /// a normal path.
    pub fn put(&mut self, obj: StoredObject) -> (r: Result<(), UploadError>)
        requires
            old(self).wf(),
            obj.wf(),
        ensures
            final(self).wf(),
            match r {
                Ok(()) => {
                    &&& !old(self)@.contains_key(obj.id)
                    &&& final(self)@ == old(self)@.insert(obj.id, obj)
                },
                Err(e) => {
                    &&& e == UploadError::IOFailure
                    &&& old(self)@.contains_key(obj.id)
                    &&& final(self)@ == old(self)@
                },
            },
    {
        if self.objects.contains_key(&obj.id) {
            Err(UploadError::IOFailure)
        } else {
            let id = obj.id;
            self.objects.insert(id, obj);
            proof {
                assert forall|k: u128| #[trigger] self@.contains_key(k) implies self@[k].wf()
                    && self@[k].id == k by {
                    if k != id {
                        assert(old(self)@.contains_key(k));
                    }
                }
            }
            Ok(())
        }
    }
}

} // verus!

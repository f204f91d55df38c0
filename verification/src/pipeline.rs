use vstd::prelude::*;

use crate::crypto;
use crate::crypto::MAX_PLAINTEXT_BYTES;
use crate::errors::RetrieveError;
use crate::errors::UploadError;
use crate::ident;
use crate::ingest::chunks_data;
use crate::ingest::ingest_part;
use crate::ingest::name_view;
use crate::ingest::part_error;
use crate::store::ObjectStore;
use crate::store::StoredObject;

verus! {

/// One line of the manifest an upload returns: the opaque identifier an
/// object was stored under, and the caller-supplied name kept for display.
#[derive(Debug)]
pub struct ManifestEntry {
    pub id: u128,
    pub name: String,
}

/// One part of an upload request as the transport hands it over: its
/// declared name, if any, and its body as a sequence of chunks in stream
/// order.
pub struct RequestPart {
    pub name: Option<String>,
    pub chunks: Vec<Vec<u8>>,
}

/// The declared name of a request part.
pub open spec fn part_name(p: RequestPart) -> Option<Seq<char>> {
    match p.name {
        Some(s) => Some(s@),
        None => None,
    }
}

/// The whole body of a request part.
pub open spec fn part_data(p: RequestPart) -> Seq<u8> {
    chunks_data(p.chunks@)
}

/// The first validation failure one request part gives, or `None` for a
/// valid part.
pub open spec fn part_verdict(p: RequestPart, limit: usize) -> Option<UploadError> {
    part_error(part_name(p), part_data(p), limit)
}

/// The first validation failure of a whole request, walking its parts in
/// stream order, or `None` when every part is valid.
pub open spec fn request_error(parts: Seq<RequestPart>, limit: usize) -> Option<UploadError>
    decreases parts.len(),
{
    if parts.len() == 0 {
        None
    } else if part_verdict(parts[0], limit) is Some {
        part_verdict(parts[0], limit)
    } else {
        request_error(parts.drop_first(), limit)
    }
}

/// While a request's first `i` parts are valid, its first failure is
/// whatever the remaining parts give.
proof fn lemma_request_error_skip(parts: Seq<RequestPart>, limit: usize, i: int)
    requires
        0 <= i <= parts.len(),
        forall|j: int| 0 <= j < i ==> part_verdict(#[trigger] parts[j], limit) is None,
    ensures
        request_error(parts, limit) == request_error(parts.skip(i), limit),
    decreases i,
{
    if i == 0 {
        assert(parts.skip(0) =~= parts);
    } else {
        lemma_request_error_skip(parts, limit, i - 1);
        assert(parts.skip(i - 1)[0] == parts[i - 1]);
        assert(parts.skip(i - 1).drop_first() =~= parts.skip(i));
    }
}

/// No staged identifier collides with another or with one already in the
/// store: the condition under which a commit goes through.
pub open spec fn ids_fresh(staged: Seq<StoredObject>, store: Map<u128, StoredObject>) -> bool {
    &&& forall|i: int, j: int|
        #![trigger staged[i].id, staged[j].id]
        0 <= i < j < staged.len() ==> staged[i].id != staged[j].id
    &&& forall|i: int| 0 <= i < staged.len() ==> !store.contains_key(#[trigger] staged[i].id)
}

/// A successful upload's whole effect: the manifest names one fresh, unique
/// identifier per part, under which the store now holds that part's bytes
/// encrypted, with its declared name; everything stored before is untouched,
/// and nothing else was added.
pub open spec fn uploaded(
    old_map: Map<u128, StoredObject>,
    new_map: Map<u128, StoredObject>,
    manifest: Seq<ManifestEntry>,
    parts: Seq<RequestPart>,
) -> bool {
    &&& manifest.len() == parts.len()
    &&& forall|i: int|
        0 <= i < parts.len() ==> {
            let entry = #[trigger] manifest[i];
            &&& part_name(parts[i]) == Some(entry.name@)
            &&& !old_map.contains_key(entry.id)
            &&& new_map.contains_key(entry.id)
            &&& new_map[entry.id].name@ == entry.name@
            &&& new_map[entry.id].record.plain() == Some(part_data(parts[i]))
            &&& new_map[entry.id].size == part_data(parts[i]).len()
        }
    &&& forall|i: int, j: int|
        #![trigger manifest[i].id, manifest[j].id]
        0 <= i < j < manifest.len() ==> manifest[i].id != manifest[j].id
    &&& forall|k: u128|
        old_map.contains_key(k) ==> #[trigger] new_map.contains_key(k) && new_map[k] == old_map[k]
    &&& forall|k: u128|
        #[trigger] new_map.contains_key(k) ==> old_map.contains_key(k) || exists|i: int|
            0 <= i < manifest.len() && #[trigger] manifest[i].id == k
}

/// Stages one request's objects — encrypted, under freshly allocated
/// identifiers — without touching the externally visible store. A request is
/// committed as one unit: either `commit` moves every staged object into the
/// store, or the session is dropped and nothing of the request survives.
pub struct UploadSession {
    limit: usize,
    staged: Vec<StoredObject>,
}

impl UploadSession {
    /// The size cap the session's parts were validated under.
    pub closed spec fn cap(self) -> usize {
        self.limit
    }

    /// The objects staged so far, in part order.
    pub closed spec fn staged_view(self) -> Seq<StoredObject> {
        self.staged@
    }

    /// Every staged object is well formed and holds an authentic ciphertext
    /// of a payload within the cap.
    pub open spec fn wf(self) -> bool {
        forall|i: int|
            0 <= i < self.staged_view().len() ==> {
                let obj = #[trigger] self.staged_view()[i];
                &&& obj.wf()
                &&& obj.record.plain() matches Some(p) && p.len() == obj.size
                &&& obj.size <= self.cap()
            }
    }

    /// Begin a request under the given size cap, with nothing staged.
    pub fn new(limit: usize) -> (r: UploadSession)
        ensures
            r.wf(),
            r.cap() == limit,
            r.staged_view() == Seq::<StoredObject>::empty(),
    {
        UploadSession { limit, staged: Vec::new() }
    }

    /// Stage one validated part: allocate a fresh identifier, encrypt the
    /// bytes under a fresh key, and hold the object back until `commit`.
    /// Fails only when the cipher refuses the payload, which it does exactly
    /// when the payload is longer than the cipher's bound.
    pub fn stage_part(&mut self, name: String, bytes: Vec<u8>) -> (r: Result<(), UploadError>)
        requires
            old(self).wf(),
            name@.len() > 0,
            0 < bytes@.len() <= old(self).cap(),
        ensures
            final(self).wf(),
            final(self).cap() == old(self).cap(),
            match r {
                Ok(()) => {
                    &&& final(self).staged_view().len() == old(self).staged_view().len() + 1
                    &&& final(self).staged_view().drop_last() == old(self).staged_view()
                    &&& {
                        let obj = final(self).staged_view().last();
                        &&& obj.name@ == name@
                        &&& obj.record.plain() == Some(bytes@)
                        &&& obj.size == bytes@.len()
                    }
                },
                Err(e) => {
                    &&& e == UploadError::IOFailure
                    &&& bytes@.len() > MAX_PLAINTEXT_BYTES
                    &&& final(self).staged_view() == old(self).staged_view()
                },
            },
    {
        let size = bytes.len();
        let record = match crypto::encrypt(&bytes) {
            Ok(rec) => rec,
            Err(e) => {
                return Err(e);
            },
        };
        let id = ident::allocate_id();
        let obj = StoredObject { id, name, record, size };
        self.staged.push(obj);
        proof {
            assert(self.staged@.drop_last() =~= old(self).staged@);
        }
        Ok(())
    }

    /// Commit the whole session to the store: every staged object becomes
    /// visible at once, and the manifest lists each part's identifier and
    /// display name in part order. If any staged identifier collides with
    /// another or with the store — negligible for 128-bit random values, and
    /// checked defensively before anything is written — the store is left
    /// exactly as it was.
    pub fn commit(self, store: &mut ObjectStore) -> (r: Result<Vec<ManifestEntry>, UploadError>)
        requires
            self.wf(),
            old(store).wf(),
        ensures
            final(store).wf(),
            match r {
                Ok(manifest) => {
                    &&& ids_fresh(self.staged_view(), old(store)@)
                    &&& manifest@.len() == self.staged_view().len()
                    &&& forall|i: int|
                        0 <= i < manifest@.len() ==> {
                            let entry = #[trigger] manifest@[i];
                            entry.id == self.staged_view()[i].id && entry.name@
                                == self.staged_view()[i].name@
                        }
                    &&& forall|i: int|
                        0 <= i < self.staged_view().len() ==> {
                            let obj = #[trigger] self.staged_view()[i];
                            final(store)@.contains_key(obj.id) && final(store)@[obj.id] == obj
                        }
                    &&& forall|k: u128|
                        old(store)@.contains_key(k) ==> #[trigger] final(store)@.contains_key(k)
                            && final(store)@[k] == old(store)@[k]
                    &&& forall|k: u128|
                        #[trigger] final(store)@.contains_key(k) ==> old(store)@.contains_key(k)
                            || exists|i: int|
                            0 <= i < self.staged_view().len() && #[trigger] self.staged_view()[i].id
                                == k
                },
                Err(e) => {
                    &&& e == UploadError::IOFailure
                    &&& !ids_fresh(self.staged_view(), old(store)@)
                    &&& final(store)@ == old(store)@
                },
            },
    {
        let ghost staged_seq = self.staged@;
        let n = self.staged.len();
        let mut i: usize = 0;
        #[verifier::loop_isolation(false)]
        while i < n
            invariant
                i <= n,
                forall|a: int, b: int|
                    #![trigger staged_seq[a].id, staged_seq[b].id]
                    0 <= a < b < i ==> staged_seq[a].id != staged_seq[b].id,
                forall|a: int, b: int|
                    #![trigger staged_seq[a].id, staged_seq[b].id]
                    0 <= a < i && a < b < n ==> staged_seq[a].id != staged_seq[b].id,
                forall|a: int|
                    0 <= a < i ==> !old(store)@.contains_key(#[trigger] staged_seq[a].id),
            decreases n - i,
        {
            if store.contains(self.staged[i].id) {
                return Err(UploadError::IOFailure);
            }
            let mut j: usize = i + 1;
            #[verifier::loop_isolation(false)]
            while j < n
                invariant
                    i < j <= n,
                    forall|b: int| i < b < j ==> staged_seq[i as int].id != #[trigger] staged_seq[b].id,
                decreases n - j,
            {
                if self.staged[j].id == self.staged[i].id {
                    return Err(UploadError::IOFailure);
                }
                j = j + 1;
            }
            i = i + 1;
        }
        let mut remaining = self.staged;
        let mut manifest: Vec<ManifestEntry> = Vec::new();
        let mut done: usize = 0;
        #[verifier::loop_isolation(false)]
        while done < n
            invariant
                done <= n,
                remaining@ =~= staged_seq.skip(done as int),
                manifest@.len() == done,
                forall|a: int|
                    0 <= a < done ==> {
                        let entry = #[trigger] manifest@[a];
                        entry.id == staged_seq[a].id && entry.name@ == staged_seq[a].name@
                    },
                store.wf(),
                forall|a: int|
                    0 <= a < done ==> store@.contains_key(#[trigger] staged_seq[a].id)
                        && store@[staged_seq[a].id] == staged_seq[a],
                forall|k: u128|
                    old(store)@.contains_key(k) ==> #[trigger] store@.contains_key(k) && store@[k]
                        == old(store)@[k],
                forall|k: u128|
                    #[trigger] store@.contains_key(k) ==> old(store)@.contains_key(k) || exists|a: int|
                        0 <= a < done && #[trigger] staged_seq[a].id == k,
            decreases n - done,
        {
            let obj = remaining.remove(0);
            proof {
                assert(obj == staged_seq[done as int]);
                assert(remaining@ =~= staged_seq.skip(done as int + 1));
            }
            let entry = ManifestEntry { id: obj.id, name: obj.name.clone() };
            manifest.push(entry);
            match store.put(obj) {
                Ok(()) => {},
                Err(_) => {
                    proof {
                        assert(false);
                    }
                    return Err(UploadError::IOFailure);
                },
            }
            done = done + 1;
        }
        Ok(manifest)
    }
}

/// Run one whole upload request against the store: validate each part in
/// stream order, stage every valid part encrypted under a fresh identifier,
/// and commit them all as one unit. On any failure the store is left exactly
/// as it was: no part of a failed request is ever persisted. An empty
/// request succeeds with an empty manifest. Validation is decided before any
/// storage or cryptographic work, so as long as the cap is within the
/// cipher's bound, an invalid request fails with exactly its first part's
/// validation error; `IOFailure` can arise only from the cipher or from an
/// identifier collision, both on an all-valid request.
pub fn process_upload(store: &mut ObjectStore, limit: usize, parts: &Vec<RequestPart>) -> (r:
    Result<Vec<ManifestEntry>, UploadError>)
    requires
        old(store).wf(),
        limit < usize::MAX,
    ensures
        final(store).wf(),
        r is Err ==> final(store)@ == old(store)@,
        parts@.len() == 0 ==> r is Ok,
        limit <= MAX_PLAINTEXT_BYTES ==> (request_error(parts@, limit) matches Some(first) ==> r
            == Err::<Vec<ManifestEntry>, UploadError>(first)),
        match r {
            Ok(manifest) => request_error(parts@, limit) is None && uploaded(
                old(store)@,
                final(store)@,
                manifest@,
                parts@,
            ),
            Err(e) => e == UploadError::IOFailure || Some(e) == request_error(parts@, limit),
        },
{
    let mut session = UploadSession::new(limit);
    let n = parts.len();
    let mut i: usize = 0;
    #[verifier::loop_isolation(false)]
    while i < n
        invariant
            i <= n,
            session.wf(),
            session.cap() == limit,
            session.staged_view().len() == i,
            forall|j: int| 0 <= j < i ==> part_verdict(#[trigger] parts@[j], limit) is None,
            forall|j: int|
                0 <= j < i ==> {
                    let obj = #[trigger] session.staged_view()[j];
                    &&& part_name(parts@[j]) == Some(obj.name@)
                    &&& obj.record.plain() == Some(part_data(parts@[j]))
                    &&& obj.size == part_data(parts@[j]).len()
                },
        decreases n - i,
    {
        let part = &parts[i];
        let declared: Option<&str> = match &part.name {
            Some(s) => Some(s.as_str()),
            None => None,
        };
        proof {
            assert(name_view(declared) == part_name(parts@[i as int]));
        }
        match ingest_part(limit, declared, &part.chunks) {
            Ok((name, bytes)) => {
                match session.stage_part(name, bytes) {
                    Ok(()) => {
                        proof {
                            assert(session.staged_view().drop_last().len() == i as int);
                            assert forall|j: int| 0 <= j < i + 1 implies {
                                let obj = #[trigger] session.staged_view()[j];
                                &&& part_name(parts@[j]) == Some(obj.name@)
                                &&& obj.record.plain() == Some(part_data(parts@[j]))
                                &&& obj.size == part_data(parts@[j]).len()
                            } by {
                                if j < i {
                                    assert(session.staged_view()[j] == session.staged_view()
                                        .drop_last()[j]);
                                }
                            }
                        }
                    },
                    Err(e) => {
                        // the cipher refused the payload, so it was longer
                        // than the cipher's bound: impossible under a cap
                        // within that bound
                        proof {
                            assert(limit > MAX_PLAINTEXT_BYTES);
                        }
                        return Err(e);
                    },
                }
            },
            Err(e) => {
                proof {
                    lemma_request_error_skip(parts@, limit, i as int);
                    assert(parts@.skip(i as int)[0] == parts@[i as int]);
                }
                return Err(e);
            },
        }
        i = i + 1;
    }
    proof {
        lemma_request_error_skip(parts@, limit, n as int);
        assert(parts@.skip(n as int).len() == 0);
    }
    let ghost staged = session.staged_view();
    match session.commit(store) {
        Ok(manifest) => {
            proof {
                assert forall|k: u128| #[trigger]
                    final(store)@.contains_key(k) implies old(store)@.contains_key(k) || exists|
                    a: int,
                |
                    0 <= a < manifest@.len() && #[trigger] manifest@[a].id == k by {
                    if !old(store)@.contains_key(k) {
                        let a = choose|a: int| 0 <= a < staged.len() && #[trigger] staged[a].id == k;
                        assert(manifest@[a].id == k);
                    }
                }
            }
            Ok(manifest)
        },
        Err(e) => {
            // a collision among freshly drawn identifiers: impossible with
            // nothing staged, so an empty request cannot end here
            proof {
                if staged.len() == 0 {
                    assert(ids_fresh(staged, old(store)@));
                    assert(false);
                }
            }
            Err(e)
        },
    }
}

/// Retrieve one object's plaintext by identifier. An unknown identifier is
/// `NotFound`; a stored ciphertext that fails its authentication check —
/// tampered with, corrupted, or its key material mismatched — is
/// `AuthenticationFailure`, and no partial or unauthenticated plaintext ever
/// comes back. The two failures are distinguishable by the caller.
pub fn retrieve(store: &ObjectStore, id: u128) -> (r: Result<Vec<u8>, RetrieveError>)
    requires
        store.wf(),
    ensures
        r == Err::<Vec<u8>, RetrieveError>(RetrieveError::NotFound) <==> !store@.contains_key(id),
        match r {
            Ok(p) => {
                &&& store@.contains_key(id)
                &&& store@[id].record.plain() == Some(p@)
                &&& p@.len() == store@[id].size
            },
            Err(e) => e == RetrieveError::NotFound || (e == RetrieveError::AuthenticationFailure
                && store@.contains_key(id) && store@[id].record.plain() is None),
        },
{
    match store.get(id) {
        Some(obj) => {
            match crypto::decrypt(&obj.record) {
                Ok(p) => Ok(p),
                Err(e) => Err(e),
            }
        },
        None => Err(RetrieveError::NotFound),
    }
}

} // verus!

//! Storage and verification of per-device shared secrets.
//!
//! A secret is stored only as its digest, created atomically with the
//! device at pairing, and compared as an opaque equality check on the
//! stored digest — never on plaintext.

use crate::digest::{gen_sha_256_hash, spec_sha256_hex};
use crate::errors::ApiError;
use vstd::hash_map::StringHashMap;
use vstd::prelude::*;

verus! {

/// The digest algorithm a credential's hash was computed with.
#[derive(Clone, Copy, Debug, PartialEq, Eq, Structural)]
pub enum HashAlgorithm {
    Sha256,
}

/// The proof-of-possession record of one device: one credential per device,
/// created once at pairing and never rotated.
#[derive(Debug)]
pub struct Credential {
    pub device_id: String,
    pub secret_hash: String,
    pub hash_algorithm: HashAlgorithm,
}

/// The specification-level image of [`Credential`].
pub struct CredentialView {
    pub device_id: Seq<char>,
    pub secret_hash: Seq<char>,
    pub hash_algorithm: HashAlgorithm,
}

impl View for Credential {
    type V = CredentialView;

    open spec fn view(&self) -> CredentialView {
        CredentialView {
            device_id: self.device_id@,
            secret_hash: self.secret_hash@,
            hash_algorithm: self.hash_algorithm,
        }
    }
}

impl Credential {
    /// Digests the secret and builds the record stored at pairing; the
    /// plaintext itself is never kept.
    pub fn new(device_id: String, secret: &String) -> (credential: Credential)
        ensures
            credential@ == (CredentialView {
                device_id: device_id@,
                secret_hash: spec_sha256_hex(secret@),
                hash_algorithm: HashAlgorithm::Sha256,
            }),
    {
        let secret_hash = gen_sha_256_hash(secret);
        Credential { device_id, secret_hash, hash_algorithm: HashAlgorithm::Sha256 }
    }
}

/// What verifying a secret against the store yields: the credential when
/// the digests agree, `NotFoundError` when no credential exists for the
/// device, `AuthError` when the digests differ.
pub open spec fn spec_verify_credential(
    store: Map<Seq<char>, CredentialView>,
    device_id: Seq<char>,
    secret: Seq<char>,
) -> Result<CredentialView, ApiError> {
    if !store.contains_key(device_id) {
        Err(ApiError::NotFoundError)
    } else if store[device_id].secret_hash != spec_sha256_hex(secret) {
        Err(ApiError::AuthError)
    } else {
        Ok(store[device_id])
    }
}

/// The credential table, keyed by device identifier.
pub struct CredentialStore {
    m: StringHashMap<Credential>,
}

impl View for CredentialStore {
    type V = Map<Seq<char>, CredentialView>;

    closed spec fn view(&self) -> Map<Seq<char>, CredentialView> {
        self.m@.map_values(|credential: Credential| credential@)
    }
}

impl CredentialStore {
    /// Each credential sits under its own device identifier.
    pub open spec fn wf(self) -> bool {
        forall|id: Seq<char>| #[trigger]
            self@.contains_key(id) ==> self@[id].device_id == id
    }

    /// An empty store.
    pub fn new() -> (store: CredentialStore)
        ensures
            store@ == Map::<Seq<char>, CredentialView>::empty(),
            store.wf(),
    {
        let store = CredentialStore { m: StringHashMap::new() };
        proof {
            assert(store@ =~= Map::<Seq<char>, CredentialView>::empty());
        }
        store
    }

    /// Stores the digest of a fresh secret under `device_id`; refused with
    /// `ConflictError` if a credential already exists for that device, and
    /// then nothing changes.
    pub fn create(&mut self, device_id: &String, secret: &String) -> (result: Result<
        (),
        ApiError,
    >)
        requires
            old(self).wf(),
        ensures
            final(self).wf(),
            old(self)@.contains_key(device_id@) ==> result == Err::<(), ApiError>(
                ApiError::ConflictError,
            ) && final(self)@ == old(self)@,
            !old(self)@.contains_key(device_id@) ==> result == Ok::<(), ApiError>(())
                && final(self)@ == old(self)@.insert(
                device_id@,
                CredentialView {
                    device_id: device_id@,
                    secret_hash: spec_sha256_hex(secret@),
                    hash_algorithm: HashAlgorithm::Sha256,
                },
            ),
    {
        if self.m.contains_key(device_id.as_str()) {
            return Err(ApiError::ConflictError);
        }
        let credential = Credential::new(device_id.clone(), secret);
        self.m.insert(device_id.clone(), credential);
        proof {
            assert(self@ =~= old(self)@.insert(
                device_id@,
                CredentialView {
                    device_id: device_id@,
                    secret_hash: spec_sha256_hex(secret@),
                    hash_algorithm: HashAlgorithm::Sha256,
                },
            ));
        }
        Ok(())
    }

    /// Verifies a submitted secret: digests it and compares against the
    /// stored digest, an opaque equality check.
    pub fn verify(&self, device_id: &String, secret: &String) -> (result: Result<
        &Credential,
        ApiError,
    >)
        ensures
            (match result {
                Ok(credential) => spec_verify_credential(self@, device_id@, secret@)
                    == Ok::<CredentialView, ApiError>(credential@),
                Err(e) => spec_verify_credential(self@, device_id@, secret@)
                    == Err::<CredentialView, ApiError>(e),
            }),
    {
        match self.m.get(device_id.as_str()) {
            None => Err(ApiError::NotFoundError),
            Some(credential) => {
                let submitted = gen_sha_256_hash(secret);
                if credential.secret_hash == submitted {
                    Ok(credential)
                } else {
                    Err(ApiError::AuthError)
                }
            },
        }
    }

    /// The number of credentials held.
    pub fn len(&self) -> (n: usize)
        ensures
            n == self@.len(),
    {
        proof {
            assert(self@.dom() =~= self.m@.dom());
        }
        self.m.len()
    }
}

} // verus!

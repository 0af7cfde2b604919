//! The sync coordinator: the protocol's top-level orchestrator.
//!
//! Every inbound operation — pair, push, pull, modify, snapshot, device
//! info — enters here. The coordinator validates the required fields,
//! resolves and authenticates the device, delegates to the registry, the
//! credential store, the ledger and the file store, and maps the outcome
//! to one typed result. It owns no state of its own beyond those
//! components, and no state survives between requests: the secret is
//! verified anew on every operation.

use crate::credential::{spec_verify_credential, CredentialStore, CredentialView, HashAlgorithm};
use crate::device::{Device, DeviceView};
use crate::digest::{compute_content_key, content_key_of, spec_sha256_hex};
use crate::errors::ApiError;
use crate::image::{blurhash_of, generate_blurhash, is_image_file, is_image_name};
use crate::ledger::{
    entry_index, entry_views, spec_device_entries, upsert_seq, ContentLedger, EntryView,
    LocalEntry, MetadataView,
};
use crate::platform::{OSView, OS};
use crate::registry::{spec_patched, DeviceRegistry};
use crate::storage::FileStore;
use vstd::prelude::*;
use vstd::string::*;

verus! {

/// Checks that every required field of a request is present.
pub fn verify_required_data<T>(vector: &[Option<T>]) -> (has_value: bool)
    ensures
        has_value == (forall|i: int| 0 <= i < vector@.len() ==> (#[trigger] vector@[i]) is Some),
{
    let mut has_value = true;
    let n = vector.len();
    for idx in 0..n
        invariant
            n == vector@.len(),
            has_value == (forall|j: int| 0 <= j < idx ==> (#[trigger] vector@[j]) is Some),
    {
        if vector[idx].is_none() {
            has_value = false;
        }
    }
    has_value
}

/// The whole abstract state of the server: the three logical tables and
/// the content tree.
pub struct ServerView {
    pub devices: Map<Seq<char>, DeviceView>,
    pub credentials: Map<Seq<char>, CredentialView>,
    pub ledger: Map<Seq<char>, Seq<EntryView>>,
    pub storage: Map<Seq<char>, Seq<u8>>,
}

/// Well-formedness of the abstract state: every record sits under its own
/// device key, a device's entries are its own and distinctly keyed, and —
/// because pairing creates both atomically — devices and credentials cover
/// exactly the same identifiers.
pub open spec fn wf_server(s: ServerView) -> bool {
    &&& forall|id: Seq<char>| #[trigger]
        s.devices.contains_key(id) ==> s.devices[id].device_id == id
    &&& forall|id: Seq<char>| #[trigger]
        s.credentials.contains_key(id) ==> s.credentials[id].device_id == id
    &&& forall|id: Seq<char>| #[trigger]
        s.ledger.contains_key(id) ==> crate::ledger::wf_entries(s.ledger[id], id)
    &&& s.devices.dom() == s.credentials.dom()
}

/// Where the bytes of one entry live in the content tree. The content key
/// leads, so every device-and-path pair gets its own location.
pub open spec fn storage_location_of(device_id: Seq<char>, content_key: Seq<char>) -> Seq<char> {
    content_key + "/"@ + device_id
}

/// The authorization gate every operation passes first: resolve the
/// device, then check the submitted secret's digest against the stored
/// one. An unknown device reports `NotFoundError`; a digest mismatch
/// reports `AuthError`; nothing changes either way.
pub open spec fn spec_authorize(s: ServerView, device_id: Seq<char>, secret: Seq<char>) -> Result<
    DeviceView,
    ApiError,
> {
    if !s.devices.contains_key(device_id) {
        Err(ApiError::NotFoundError)
    } else {
        match spec_verify_credential(s.credentials, device_id, secret) {
            Ok(_) => Ok(s.devices[device_id]),
            Err(e) => Err(e),
        }
    }
}

/// Pairing: creates the device and its credential together, as one unit of
/// work, or refuses with `ConflictError` — leaving everything unchanged —
/// when the identifier is already taken.
pub open spec fn spec_pair(
    s: ServerView,
    device_id: Seq<char>,
    secret: Seq<char>,
    display_name: Seq<char>,
    is_global: bool,
    is_read_only: bool,
    platform: OSView,
    remote_address: Seq<char>,
    now: u64,
) -> (ServerView, Result<Seq<char>, ApiError>) {
    if s.devices.contains_key(device_id) || s.credentials.contains_key(device_id) {
        (s, Err(ApiError::ConflictError))
    } else {
        (
            ServerView {
                devices: s.devices.insert(
                    device_id,
                    DeviceView {
                        device_id,
                        display_name,
                        is_global,
                        is_read_only,
                        platform,
                        created_at: now,
                        last_sync_at: now,
                        last_remote_address: remote_address,
                    },
                ),
                credentials: s.credentials.insert(
                    device_id,
                    CredentialView {
                        device_id,
                        secret_hash: spec_sha256_hex(secret),
                        hash_algorithm: HashAlgorithm::Sha256,
                    },
                ),
                ..s
            },
            Ok(device_id),
        )
    }
}

/// The entry one push writes: addressed by the content key of its logical
/// path, sized and stamped from the written bytes and the push moment,
/// with a perceptual fingerprint exactly when the name is an image's and
/// the buffer holds a full sampling grid.
pub open spec fn spec_pushed_entry(
    device_id: Seq<char>,
    relative_path: Seq<char>,
    file_name: Seq<char>,
    dir_path: Seq<char>,
    client_path: Seq<char>,
    bytes: Seq<u8>,
    mime_type: Option<Seq<char>>,
    now: u64,
) -> EntryView {
    EntryView {
        content_key: content_key_of(relative_path, file_name),
        device_id,
        file_name,
        relative_path,
        dir_path,
        client_path,
        byte_size: bytes.len() as u64,
        storage_location: storage_location_of(device_id, content_key_of(relative_path, file_name)),
        mime_type,
        perceptual_hash: (if is_image_name(file_name) && bytes.len() >= 4096 {
            Some(blurhash_of(bytes))
        } else {
            None
        }),
        metadata: MetadataView {
            file_type: mime_type,
            modified: Some(now),
            accessed: Some(now),
            created: Some(now),
            len: Some(bytes.len() as u64),
        },
    }
}

/// Push: after authorization, write the bytes to the entry's location in
/// the content tree and write the entry through the ledger's keyed
/// update — in place for a path already present, appended for a fresh one.
pub open spec fn spec_push(
    s: ServerView,
    device_id: Seq<char>,
    secret: Seq<char>,
    relative_path: Seq<char>,
    file_name: Seq<char>,
    dir_path: Seq<char>,
    client_path: Seq<char>,
    bytes: Seq<u8>,
    mime_type: Option<Seq<char>>,
    now: u64,
) -> (ServerView, Result<EntryView, ApiError>) {
    match spec_authorize(s, device_id, secret) {
        Err(e) => (s, Err(e)),
        Ok(_) => {
            let entry = spec_pushed_entry(
                device_id,
                relative_path,
                file_name,
                dir_path,
                client_path,
                bytes,
                mime_type,
                now,
            );
            (
                ServerView {
                    ledger: s.ledger.insert(
                        device_id,
                        upsert_seq(spec_device_entries(s.ledger, device_id), entry),
                    ),
                    storage: s.storage.insert(entry.storage_location, bytes),
                    ..s
                },
                Ok(entry),
            )
        },
    }
}

/// Pull: after authorization, look the path's entry up — `NotFoundError`
/// when it was never pushed — and return the stored bytes verbatim; an
/// entry whose backing object is gone reports `IntegrityError`, the
/// ledger-storage divergence fault, and never any bytes.
pub open spec fn spec_pull(
    s: ServerView,
    device_id: Seq<char>,
    secret: Seq<char>,
    relative_path: Seq<char>,
    file_name: Seq<char>,
) -> Result<Seq<u8>, ApiError> {
    match spec_authorize(s, device_id, secret) {
        Err(e) => Err(e),
        Ok(_) => {
            let entries = spec_device_entries(s.ledger, device_id);
            let i = entry_index(entries, content_key_of(relative_path, file_name));
            if i == -1 {
                Err(ApiError::NotFoundError)
            } else if !s.storage.contains_key(entries[i].storage_location) {
                Err(ApiError::IntegrityError)
            } else {
                Ok(s.storage[entries[i].storage_location])
            }
        },
    }
}

/// Modify device: after authorization, apply the partial update — only the
/// fields supplied change, the rest keep their value.
pub open spec fn spec_modify_device(
    s: ServerView,
    device_id: Seq<char>,
    secret: Seq<char>,
    display_name: Option<Seq<char>>,
    remote_address: Option<Seq<char>>,
) -> (ServerView, Result<DeviceView, ApiError>) {
    match spec_authorize(s, device_id, secret) {
        Err(e) => (s, Err(e)),
        Ok(device) => {
            let patched = spec_patched(device, display_name, remote_address);
            (ServerView { devices: s.devices.insert(device_id, patched), ..s }, Ok(patched))
        },
    }
}

/// Snapshot: after authorization, every entry the device owns, in ledger
/// order, each under its stable identifier — the entry's content key.
pub open spec fn spec_snapshot(s: ServerView, device_id: Seq<char>, secret: Seq<char>) -> Result<
    Seq<(Seq<char>, EntryView)>,
    ApiError,
> {
    match spec_authorize(s, device_id, secret) {
        Err(e) => Err(e),
        Ok(_) => Ok(
            spec_device_entries(s.ledger, device_id).map_values(
                |entry: EntryView| (entry.content_key, entry),
            ),
        ),
    }
}

/// The read-only metadata snapshot that device info reports.
#[derive(Debug)]
pub struct DeviceInfo {
    pub device_id: String,
    pub display_name: String,
    pub last_sync_at: u64,
    pub is_global: bool,
}

/// The specification-level image of [`DeviceInfo`].
pub struct DeviceInfoView {
    pub device_id: Seq<char>,
    pub display_name: Seq<char>,
    pub last_sync_at: u64,
    pub is_global: bool,
}

impl View for DeviceInfo {
    type V = DeviceInfoView;

    open spec fn view(&self) -> DeviceInfoView {
        DeviceInfoView {
            device_id: self.device_id@,
            display_name: self.display_name@,
            last_sync_at: self.last_sync_at,
            is_global: self.is_global,
        }
    }
}

/// Device info: after authorization, the current metadata of the device,
/// read-only — `last_sync_at` is reported, never advanced.
pub open spec fn spec_device_info(s: ServerView, device_id: Seq<char>, secret: Seq<char>) -> Result<
    DeviceInfoView,
    ApiError,
> {
    match spec_authorize(s, device_id, secret) {
        Err(e) => Err(e),
        Ok(device) => Ok(
            DeviceInfoView {
                device_id: device.device_id,
                display_name: device.display_name,
                last_sync_at: device.last_sync_at,
                is_global: device.is_global,
            },
        ),
    }
}

/// The protocol orchestrator, owning the registry, the credential store,
/// the ledger and the content tree through their own components.
pub struct SyncCoordinator {
    registry: DeviceRegistry,
    credentials: CredentialStore,
    ledger: ContentLedger,
    storage: FileStore,
}

impl View for SyncCoordinator {
    type V = ServerView;

    closed spec fn view(&self) -> ServerView {
        ServerView {
            devices: self.registry@,
            credentials: self.credentials@,
            ledger: self.ledger@,
            storage: self.storage@,
        }
    }
}

impl SyncCoordinator {
    /// The coordinator's state is well-formed.
    pub open spec fn wf(self) -> bool {
        wf_server(self@)
    }

    /// A fresh server with nothing paired and nothing stored.
    pub fn new() -> (server: SyncCoordinator)
        ensures
            server.wf(),
            server@.devices == Map::<Seq<char>, DeviceView>::empty(),
            server@.credentials == Map::<Seq<char>, CredentialView>::empty(),
            server@.ledger == Map::<Seq<char>, Seq<EntryView>>::empty(),
            server@.storage == Map::<Seq<char>, Seq<u8>>::empty(),
    {
        let server = SyncCoordinator {
            registry: DeviceRegistry::new(),
            credentials: CredentialStore::new(),
            ledger: ContentLedger::new(),
            storage: FileStore::new(),
        };
        proof {
            assert(server@.devices.dom() =~= server@.credentials.dom());
        }
        server
    }

    /// Resolves the device and checks the submitted secret against the
    /// stored digest; every other operation calls this first and rejects
    /// on failure before touching anything.
    pub fn authorize(&self, device_id: &String, secret: &String) -> (result: Result<
        &Device,
        ApiError,
    >)
        requires
            self.wf(),
        ensures
            (match result {
                Ok(device) => spec_authorize(self@, device_id@, secret@) == Ok::<
                    DeviceView,
                    ApiError,
                >(device@),
                Err(e) => spec_authorize(self@, device_id@, secret@) == Err::<
                    DeviceView,
                    ApiError,
                >(e),
            }),
    {
        let device = match self.registry.lookup(device_id) {
            Err(e) => {
                return Err(e);
            },
            Ok(d) => d,
        };
        match self.credentials.verify(device_id, secret) {
            Err(e) => Err(e),
            Ok(_) => Ok(device),
        }
    }

    /// Pairs a device: validates the required fields, then creates the
    /// device and its credential as one unit of work — the state already
    /// holding either record refuses with `ConflictError` and nothing is
    /// half-written. Success returns the device identifier.
    pub fn pair(
        &mut self,
        device_id: Option<String>,
        secret: Option<String>,
        display_name: Option<String>,
        platform: Option<OS>,
        is_global: bool,
        is_read_only: bool,
        remote_address: String,
        now: u64,
    ) -> (result: Result<String, ApiError>)
        requires
            old(self).wf(),
        ensures
            final(self).wf(),
            (device_id is None || secret is None || display_name is None || platform is None)
                ==> final(self)@ == old(self)@ && result == Err::<String, ApiError>(
                ApiError::ValidationError,
            ),
            (device_id is Some && secret is Some && display_name is Some && platform is Some)
                ==> ({
                let (post, outcome) = spec_pair(
                    old(self)@,
                    (device_id->0)@,
                    (secret->0)@,
                    (display_name->0)@,
                    is_global,
                    is_read_only,
                    (platform->0)@,
                    remote_address@,
                    now,
                );
                final(self)@ == post && (match result {
                    Ok(id) => outcome == Ok::<Seq<char>, ApiError>(id@),
                    Err(e) => outcome == Err::<Seq<char>, ApiError>(e),
                })
            }),
    {
        let required = [device_id.as_ref(), secret.as_ref(), display_name.as_ref()];
        if !verify_required_data(required.as_slice()) || platform.is_none() {
            return Err(ApiError::ValidationError);
        }
        let device_id = device_id.unwrap();
        let secret = secret.unwrap();
        let display_name = display_name.unwrap();
        let platform = platform.unwrap();
        match self.registry.register(
            &device_id,
            display_name,
            is_global,
            is_read_only,
            platform,
            remote_address,
            now,
        ) {
            Err(e) => {
                proof {
                    assert(old(self)@.devices.contains_key(device_id@));
                }
                Err(e)
            },
            Ok(_) => {
                proof {
                    assert(!old(self)@.credentials.contains_key(device_id@));
                }
                match self.credentials.create(&device_id, &secret) {
                    Err(e) => {
                        proof {
                            assert(false);
                        }
                        Err(e)
                    },
                    Ok(_) => {
                        proof {
                            assert(self@.devices.dom() =~= self@.credentials.dom());
                        }
                        Ok(device_id)
                    },
                }
            },
        }
    }

    /// Accepts one file: validates the required fields, authorizes, then
    /// streams the bytes into the content tree and writes the ledger
    /// entry — in place when the path was pushed before, appended when it
    /// is new. Success returns the resulting entry.
    pub fn push(
        &mut self,
        device_id: Option<String>,
        secret: Option<String>,
        relative_path: Option<String>,
        file_name: Option<String>,
        dir_path: Option<String>,
        client_path: Option<String>,
        bytes: Vec<u8>,
        mime_type: Option<String>,
        now: u64,
    ) -> (result: Result<LocalEntry, ApiError>)
        requires
            old(self).wf(),
        ensures
            final(self).wf(),
            (device_id is None || secret is None || relative_path is None || file_name is None
                || dir_path is None || client_path is None) ==> final(self)@ == old(self)@
                && result == Err::<LocalEntry, ApiError>(ApiError::ValidationError),
            (device_id is Some && secret is Some && relative_path is Some && file_name is Some
                && dir_path is Some && client_path is Some) ==> ({
                let (post, outcome) = spec_push(
                    old(self)@,
                    (device_id->0)@,
                    (secret->0)@,
                    (relative_path->0)@,
                    (file_name->0)@,
                    (dir_path->0)@,
                    (client_path->0)@,
                    bytes@,
                    (match mime_type {
                        Some(ref t) => Some(t@),
                        None => None::<Seq<char>>,
                    }),
                    now,
                );
                final(self)@ == post && (match result {
                    Ok(entry) => outcome == Ok::<EntryView, ApiError>(entry@),
                    Err(e) => outcome == Err::<EntryView, ApiError>(e),
                })
            }),
    {
        let required = [
            device_id.as_ref(),
            secret.as_ref(),
            relative_path.as_ref(),
            file_name.as_ref(),
            dir_path.as_ref(),
            client_path.as_ref(),
        ];
        if !verify_required_data(required.as_slice()) {
            return Err(ApiError::ValidationError);
        }
        let device_id = device_id.unwrap();
        let secret = secret.unwrap();
        let relative_path = relative_path.unwrap();
        let file_name = file_name.unwrap();
        let dir_path = dir_path.unwrap();
        let client_path = client_path.unwrap();
        match self.authorize(&device_id, &secret) {
            Err(e) => {
                return Err(e);
            },
            Ok(_) => {},
        }
        let content_key = compute_content_key(relative_path.as_str(), file_name.as_str());
        let storage_location = content_key.clone().concat("/").concat(device_id.as_str());
        let perceptual_hash = if is_image_file(file_name.as_str()) {
            generate_blurhash(&bytes)
        } else {
            None
        };
        let byte_size = bytes.len() as u64;
        let entry = LocalEntry::new(
            device_id.clone(),
            file_name,
            byte_size,
            storage_location.clone(),
            mime_type,
            perceptual_hash,
            dir_path,
            client_path,
            relative_path,
            content_key,
            now,
        );
        let returned = entry.duplicate();
        self.ledger.upsert(&device_id, entry);
        self.storage.write(storage_location, bytes);
        proof {
            assert(final(self)@.devices.dom() == final(self)@.credentials.dom());
        }
        Ok(returned)
    }

    /// Hands one file back: validates the required fields, authorizes,
    /// resolves the path's entry — `NotFoundError` when it was never
    /// pushed — and returns the stored bytes verbatim; a missing backing
    /// object reports `IntegrityError` instead.
    pub fn pull(
        &self,
        device_id: Option<String>,
        secret: Option<String>,
        relative_path: Option<String>,
        file_name: Option<String>,
    ) -> (result: Result<Vec<u8>, ApiError>)
        requires
            self.wf(),
        ensures
            (device_id is None || secret is None || relative_path is None || file_name is None)
                ==> result == Err::<Vec<u8>, ApiError>(ApiError::ValidationError),
            (device_id is Some && secret is Some && relative_path is Some && file_name is Some)
                ==> ({
                let outcome = spec_pull(
                    self@,
                    (device_id->0)@,
                    (secret->0)@,
                    (relative_path->0)@,
                    (file_name->0)@,
                );
                match result {
                    Ok(bytes) => outcome == Ok::<Seq<u8>, ApiError>(bytes@),
                    Err(e) => outcome == Err::<Seq<u8>, ApiError>(e),
                }
            }),
    {
        let required = [
            device_id.as_ref(),
            secret.as_ref(),
            relative_path.as_ref(),
            file_name.as_ref(),
        ];
        if !verify_required_data(required.as_slice()) {
            return Err(ApiError::ValidationError);
        }
        let device_id = device_id.unwrap();
        let secret = secret.unwrap();
        let relative_path = relative_path.unwrap();
        let file_name = file_name.unwrap();
        match self.authorize(&device_id, &secret) {
            Err(e) => {
                return Err(e);
            },
            Ok(_) => {},
        }
        let content_key = compute_content_key(relative_path.as_str(), file_name.as_str());
        let entry = match self.ledger.find(&device_id, &content_key) {
            None => {
                return Err(ApiError::NotFoundError);
            },
            Some(entry) => entry,
        };
        match self.storage.read(&entry.storage_location) {
            None => Err(ApiError::IntegrityError),
            Some(bytes) => Ok(bytes),
        }
    }

    /// Patches a device's mutable metadata: after validation and
    /// authorization, only the fields supplied in the request change —
    /// omitted fields keep their value.
    pub fn modify_device(
        &mut self,
        device_id: Option<String>,
        secret: Option<String>,
        display_name: Option<String>,
        remote_address: Option<String>,
    ) -> (result: Result<Device, ApiError>)
        requires
            old(self).wf(),
        ensures
            final(self).wf(),
            (device_id is None || secret is None) ==> final(self)@ == old(self)@ && result
                == Err::<Device, ApiError>(ApiError::ValidationError),
            (device_id is Some && secret is Some) ==> ({
                let (post, outcome) = spec_modify_device(
                    old(self)@,
                    (device_id->0)@,
                    (secret->0)@,
                    (match display_name {
                        Some(ref n) => Some(n@),
                        None => None::<Seq<char>>,
                    }),
                    (match remote_address {
                        Some(ref a) => Some(a@),
                        None => None::<Seq<char>>,
                    }),
                );
                final(self)@ == post && (match result {
                    Ok(device) => outcome == Ok::<DeviceView, ApiError>(device@),
                    Err(e) => outcome == Err::<DeviceView, ApiError>(e),
                })
            }),
    {
        let required = [device_id.as_ref(), secret.as_ref()];
        if !verify_required_data(required.as_slice()) {
            return Err(ApiError::ValidationError);
        }
        let device_id = device_id.unwrap();
        let secret = secret.unwrap();
        match self.authorize(&device_id, &secret) {
            Err(e) => {
                return Err(e);
            },
            Ok(_) => {},
        }
        match self.registry.patch(&device_id, display_name.as_ref(), remote_address.as_ref()) {
            Err(e) => {
                proof {
                    assert(false);
                }
                Err(e)
            },
            Ok(device) => {
                proof {
                    assert(final(self)@.devices.dom() =~= old(self)@.devices.dom());
                }
                Ok(device)
            },
        }
    }

    /// Reports every entry the device owns, each under its stable
    /// identifier — the entry's content key — after validation and
    /// authorization.
    pub fn snapshot(&self, device_id: Option<String>, secret: Option<String>) -> (result: Result<
        Vec<(String, LocalEntry)>,
        ApiError,
    >)
        requires
            self.wf(),
        ensures
            (device_id is None || secret is None) ==> result == Err::<
                Vec<(String, LocalEntry)>,
                ApiError,
            >(ApiError::ValidationError),
            (device_id is Some && secret is Some) ==> ({
                let outcome = spec_snapshot(self@, (device_id->0)@, (secret->0)@);
                match result {
                    Ok(list) => outcome == Ok::<Seq<(Seq<char>, EntryView)>, ApiError>(
                        list@.map_values(|p: (String, LocalEntry)| (p.0@, p.1@)),
                    ),
                    Err(e) => outcome == Err::<Seq<(Seq<char>, EntryView)>, ApiError>(e),
                }
            }),
    {
        let required = [device_id.as_ref(), secret.as_ref()];
        if !verify_required_data(required.as_slice()) {
            return Err(ApiError::ValidationError);
        }
        let device_id = device_id.unwrap();
        let secret = secret.unwrap();
        match self.authorize(&device_id, &secret) {
            Err(e) => {
                return Err(e);
            },
            Ok(_) => {},
        }
        let entries = self.ledger.entries_for(&device_id);
        let ghost views = spec_device_entries(self@.ledger, device_id@);
        let mut list: Vec<(String, LocalEntry)> = Vec::new();
        let n = entries.len();
        proof {
            assert(views == entry_views(entries@));
        }
        for i in 0..n
            invariant
                n == entries@.len(),
                views == entry_views(entries@),
                list@.len() == i,
                forall|j: int|
                    0 <= j < i ==> (#[trigger] list@[j]).0@ == views[j].content_key && list@[j].1@
                        == views[j],
        {
            proof {
                assert(views[i as int] == entries@[i as int]@);
            }
            let entry = &entries[i];
            list.push((entry.content_key.clone(), entry.duplicate()));
        }
        proof {
            assert(list@.map_values(|p: (String, LocalEntry)| (p.0@, p.1@)) =~= views.map_values(
                |entry: EntryView| (entry.content_key, entry),
            ));
        }
        Ok(list)
    }

    /// Reports the device's current metadata — identifier, display name,
    /// last sync moment and global flag — after validation and
    /// authorization; nothing is advanced by reading it.
    pub fn device_info(&self, device_id: Option<String>, secret: Option<String>) -> (result:
        Result<DeviceInfo, ApiError>)
        requires
            self.wf(),
        ensures
            (device_id is None || secret is None) ==> result == Err::<DeviceInfo, ApiError>(
                ApiError::ValidationError,
            ),
            (device_id is Some && secret is Some) ==> ({
                let outcome = spec_device_info(self@, (device_id->0)@, (secret->0)@);
                match result {
                    Ok(info) => outcome == Ok::<DeviceInfoView, ApiError>(info@),
                    Err(e) => outcome == Err::<DeviceInfoView, ApiError>(e),
                }
            }),
    {
        let required = [device_id.as_ref(), secret.as_ref()];
        if !verify_required_data(required.as_slice()) {
            return Err(ApiError::ValidationError);
        }
        let device_id = device_id.unwrap();
        let secret = secret.unwrap();
        let device = match self.authorize(&device_id, &secret) {
            Err(e) => {
                return Err(e);
            },
            Ok(device) => device,
        };
        Ok(
            DeviceInfo {
                device_id: device.device_id.clone(),
                display_name: device.display_name.clone(),
                last_sync_at: device.last_sync_at,
                is_global: device.is_global,
            },
        )
    }

    /// How many devices are paired.
    pub fn device_count(&self) -> (n: usize)
        ensures
            n == self@.devices.len(),
    {
        self.registry.len()
    }

    /// How many ledger entries the device owns.
    pub fn entry_count(&self, device_id: &String) -> (n: usize)
        ensures
            n == spec_device_entries(self@.ledger, device_id@).len(),
    {
        self.ledger.entry_count(device_id)
    }

    /// Discards the stored object at a location, modelling the loss of a
    /// backing file outside the protocol; the ledger keeps its entry, and
    /// a later pull of that path surfaces the divergence as
    /// `IntegrityError`.
    pub fn drop_backing_object(&mut self, location: &String)
        requires
            old(self).wf(),
        ensures
            final(self).wf(),
            final(self)@ == (ServerView { storage: old(self)@.storage.remove(location@), ..old(self)@ }),
    {
        self.storage.discard(location);
    }
}

} // verus!

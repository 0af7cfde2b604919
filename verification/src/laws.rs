//! The protocol's guarantees, proved once and for all.
//!
//! Each law is stated over the abstract state transitions that the
//! coordinator's operations are specified by, so it holds of every
//! execution of those operations, on every input.

use crate::coordinator::{
    spec_authorize, spec_modify_device, spec_pair, spec_pull, spec_push, ServerView,
};
use crate::device::DeviceView;
use crate::digest::{content_key_of, spec_sha256_hex};
use crate::errors::ApiError;
use crate::ledger::{
    entry_index, lemma_upsert_found, lemma_upsert_other_key, spec_device_entries,
};
use crate::platform::OSView;
use vstd::prelude::*;

verus! {

/// Pairing one identifier succeeds at most once: after a successful
/// pairing, a second pairing of the same identifier — whatever its other
/// fields — is refused with `ConflictError` and changes nothing, so one
/// device never has two records.
pub proof fn lemma_pair_twice_conflicts(
    s: ServerView,
    device_id: Seq<char>,
    secret1: Seq<char>,
    display_name1: Seq<char>,
    is_global1: bool,
    is_read_only1: bool,
    platform1: OSView,
    remote1: Seq<char>,
    now1: u64,
    secret2: Seq<char>,
    display_name2: Seq<char>,
    is_global2: bool,
    is_read_only2: bool,
    platform2: OSView,
    remote2: Seq<char>,
    now2: u64,
)
    ensures
        ({
            let (mid, first) = spec_pair(
                s,
                device_id,
                secret1,
                display_name1,
                is_global1,
                is_read_only1,
                platform1,
                remote1,
                now1,
            );
            first is Ok ==> spec_pair(
                mid,
                device_id,
                secret2,
                display_name2,
                is_global2,
                is_read_only2,
                platform2,
                remote2,
                now2,
            ) == (mid, Err::<Seq<char>, ApiError>(ApiError::ConflictError))
        }),
{
}

/// The secret given at pairing authorizes the device from then on.
pub proof fn lemma_pair_then_authorize(
    s: ServerView,
    device_id: Seq<char>,
    secret: Seq<char>,
    display_name: Seq<char>,
    is_global: bool,
    is_read_only: bool,
    platform: OSView,
    remote: Seq<char>,
    now: u64,
)
    ensures
        ({
            let (mid, outcome) = spec_pair(
                s,
                device_id,
                secret,
                display_name,
                is_global,
                is_read_only,
                platform,
                remote,
                now,
            );
            outcome is Ok ==> spec_authorize(mid, device_id, secret) is Ok
        }),
{
}

/// Authorization never succeeds with a wrong secret: whenever the
/// submitted secret's digest differs from the digest recorded for the
/// device, `authorize` fails — whether or not the device identifier is
/// otherwise valid — and for a device that is known and has a credential
/// the failure is precisely `AuthError`.
pub proof fn lemma_authorize_rejects_wrong_secret(
    s: ServerView,
    device_id: Seq<char>,
    paired_secret: Seq<char>,
    wrong_secret: Seq<char>,
)
    requires
        spec_sha256_hex(wrong_secret) != spec_sha256_hex(paired_secret),
        s.credentials.contains_key(device_id) ==> s.credentials[device_id].secret_hash
            == spec_sha256_hex(paired_secret),
    ensures
        spec_authorize(s, device_id, wrong_secret) is Err,
        s.devices.contains_key(device_id) && s.credentials.contains_key(device_id)
            ==> spec_authorize(s, device_id, wrong_secret) == Err::<DeviceView, ApiError>(
            ApiError::AuthError,
        ),
{
}

/// Pushing the same logical path twice keeps one entry — the second push
/// updates it in place and the device's entry count is unchanged — while
/// pushing a path whose content key is different and not yet in the
/// ledger appends a second entry.
pub proof fn lemma_push_twice(
    s: ServerView,
    device_id: Seq<char>,
    secret: Seq<char>,
    relative_path1: Seq<char>,
    file_name1: Seq<char>,
    dir1: Seq<char>,
    client1: Seq<char>,
    bytes1: Seq<u8>,
    mime1: Option<Seq<char>>,
    now1: u64,
    relative_path2: Seq<char>,
    file_name2: Seq<char>,
    dir2: Seq<char>,
    client2: Seq<char>,
    bytes2: Seq<u8>,
    mime2: Option<Seq<char>>,
    now2: u64,
)
    ensures
        ({
            let (mid, first) = spec_push(
                s,
                device_id,
                secret,
                relative_path1,
                file_name1,
                dir1,
                client1,
                bytes1,
                mime1,
                now1,
            );
            let (post, second) = spec_push(
                mid,
                device_id,
                secret,
                relative_path2,
                file_name2,
                dir2,
                client2,
                bytes2,
                mime2,
                now2,
            );
            let key1 = content_key_of(relative_path1, file_name1);
            let key2 = content_key_of(relative_path2, file_name2);
            first is Ok ==> second is Ok && (key2 == key1
                ==> spec_device_entries(post.ledger, device_id).len() == spec_device_entries(
                mid.ledger,
                device_id,
            ).len()) && (key2 != key1 && entry_index(
                spec_device_entries(s.ledger, device_id),
                key2,
            ) == -1 ==> spec_device_entries(post.ledger, device_id).len() == spec_device_entries(
                mid.ledger,
                device_id,
            ).len() + 1)
        }),
{
    let (mid, first) = spec_push(
        s,
        device_id,
        secret,
        relative_path1,
        file_name1,
        dir1,
        client1,
        bytes1,
        mime1,
        now1,
    );
    if first is Ok {
        let prior = spec_device_entries(s.ledger, device_id);
        let entry1 = first->Ok_0;
        let key1 = content_key_of(relative_path1, file_name1);
        let key2 = content_key_of(relative_path2, file_name2);
        lemma_upsert_found(prior, entry1);
        if key2 != key1 {
            lemma_upsert_other_key(prior, entry1, key2);
        }
        let (post, second) = spec_push(
            mid,
            device_id,
            secret,
            relative_path2,
            file_name2,
            dir2,
            client2,
            bytes2,
            mime2,
            now2,
        );
        let entry2 = second->Ok_0;
        lemma_upsert_found(spec_device_entries(mid.ledger, device_id), entry2);
    }
}

/// A pull right after a push of the same path returns exactly the pushed
/// bytes.
pub proof fn lemma_pull_round_trip(
    s: ServerView,
    device_id: Seq<char>,
    secret: Seq<char>,
    relative_path: Seq<char>,
    file_name: Seq<char>,
    dir_path: Seq<char>,
    client_path: Seq<char>,
    bytes: Seq<u8>,
    mime_type: Option<Seq<char>>,
    now: u64,
)
    ensures
        ({
            let (post, outcome) = spec_push(
                s,
                device_id,
                secret,
                relative_path,
                file_name,
                dir_path,
                client_path,
                bytes,
                mime_type,
                now,
            );
            outcome is Ok ==> spec_pull(post, device_id, secret, relative_path, file_name)
                == Ok::<Seq<u8>, ApiError>(bytes)
        }),
{
    let (post, outcome) = spec_push(
        s,
        device_id,
        secret,
        relative_path,
        file_name,
        dir_path,
        client_path,
        bytes,
        mime_type,
        now,
    );
    if outcome is Ok {
        let prior = spec_device_entries(s.ledger, device_id);
        let entry = outcome->Ok_0;
        lemma_upsert_found(prior, entry);
    }
}

/// A pull of a path never pushed — no entry of the device carries its
/// content key — reports `NotFoundError`, even for an authorized device.
pub proof fn lemma_pull_never_pushed(
    s: ServerView,
    device_id: Seq<char>,
    secret: Seq<char>,
    relative_path: Seq<char>,
    file_name: Seq<char>,
)
    requires
        spec_authorize(s, device_id, secret) is Ok,
        entry_index(
            spec_device_entries(s.ledger, device_id),
            content_key_of(relative_path, file_name),
        ) == -1,
    ensures
        spec_pull(s, device_id, secret, relative_path, file_name) == Err::<Seq<u8>, ApiError>(
            ApiError::NotFoundError,
        ),
{
}

/// A modify that supplies only a display name leaves the remote address
/// unchanged, and the other way round; identifier, flags, platform and
/// timestamps survive every modify untouched.
pub proof fn lemma_modify_partial_update(
    s: ServerView,
    device_id: Seq<char>,
    secret: Seq<char>,
    display_name: Option<Seq<char>>,
    remote_address: Option<Seq<char>>,
)
    ensures
        ({
            let (post, outcome) = spec_modify_device(
                s,
                device_id,
                secret,
                display_name,
                remote_address,
            );
            outcome is Ok ==> ({
                let before = s.devices[device_id];
                let after = post.devices[device_id];
                &&& display_name is None ==> after.display_name == before.display_name
                &&& display_name is Some ==> after.display_name == display_name->0
                &&& remote_address is None ==> after.last_remote_address
                    == before.last_remote_address
                &&& remote_address is Some ==> after.last_remote_address == remote_address->0
                &&& after.device_id == before.device_id
                &&& after.is_global == before.is_global
                &&& after.is_read_only == before.is_read_only
                &&& after.platform == before.platform
                &&& after.created_at == before.created_at
                &&& after.last_sync_at == before.last_sync_at
            })
        }),
{
}

} // verus!

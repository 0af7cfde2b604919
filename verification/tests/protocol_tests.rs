use aperture::coordinator::SyncCoordinator;
use aperture::errors::ApiError;
use aperture::platform::OS;

fn field(text: &str) -> Option<String> {
    Some(text.to_string())
}

fn pair_dev1(server: &mut SyncCoordinator) -> Result<String, ApiError> {
    server.pair(
        field("dev1"),
        field("s3cr3t"),
        field("Phone"),
        Some(OS::Android(14, 0)),
        false,
        false,
        "192.168.0.7:40000".to_string(),
        1_700_000_000,
    )
}

fn push_notes(server: &mut SyncCoordinator, bytes: &[u8], now: u64) -> Result<(), ApiError> {
    server
        .push(
            field("dev1"),
            field("s3cr3t"),
            field(""),
            field("notes.txt"),
            field("/docs"),
            field("/home/u/docs/notes.txt"),
            bytes.to_vec(),
            Some("text/plain".to_string()),
            now,
        )
        .map(|_| ())
}

#[test]
fn pair_succeeds_then_conflicts() {
    let mut server = SyncCoordinator::new();
    let first = pair_dev1(&mut server);
    assert_eq!(first, Ok("dev1".to_string()));
    assert_eq!(server.device_count(), 1);
    let second = pair_dev1(&mut server);
    assert_eq!(second, Err(ApiError::ConflictError));
    assert_eq!(second.unwrap_err().status_code(), 409);
    // Never two records for one identifier.
    assert_eq!(server.device_count(), 1);
}

#[test]
fn pair_with_missing_field_is_rejected() {
    let mut server = SyncCoordinator::new();
    let outcome = server.pair(
        field("dev1"),
        None,
        field("Phone"),
        Some(OS::Android(14, 0)),
        false,
        false,
        "10.0.0.1:1".to_string(),
        1,
    );
    assert_eq!(outcome, Err(ApiError::ValidationError));
    assert_eq!(ApiError::ValidationError.status_code(), 400);
    assert_eq!(server.device_count(), 0);
}

#[test]
fn push_then_pull_round_trip() {
    let mut server = SyncCoordinator::new();
    pair_dev1(&mut server).unwrap();
    push_notes(&mut server, b"hi", 1_700_000_100).unwrap();
    assert_eq!(server.entry_count(&"dev1".to_string()), 1);
    let pulled = server.pull(field("dev1"), field("s3cr3t"), field(""), field("notes.txt"));
    assert_eq!(pulled, Ok(b"hi".to_vec()));
}

#[test]
fn push_records_the_path_keyed_entry() {
    let mut server = SyncCoordinator::new();
    pair_dev1(&mut server).unwrap();
    let entry = server
        .push(
            field("dev1"),
            field("s3cr3t"),
            field(""),
            field("notes.txt"),
            field("/docs"),
            field("/home/u/docs/notes.txt"),
            b"hi".to_vec(),
            Some("text/plain".to_string()),
            1_700_000_100,
        )
        .unwrap();
    // The content key is the digest of "" + "notes.txt".
    assert_eq!(
        entry.content_key,
        "e39538e7f27a7bf579cd9b85a103c0f0b86b60b788534295538d0301a9c5dce6"
    );
    assert_eq!(entry.device_id, "dev1");
    assert_eq!(entry.byte_size, 2);
    assert_eq!(entry.mime_type.as_deref(), Some("text/plain"));
    assert_eq!(entry.perceptual_hash, None);
    assert_eq!(entry.get_metadata().len, Some(2));
    assert_eq!(entry.get_metadata().modified, Some(1_700_000_100));
}

#[test]
fn second_push_to_same_path_updates_in_place() {
    let mut server = SyncCoordinator::new();
    pair_dev1(&mut server).unwrap();
    push_notes(&mut server, b"hi", 1_700_000_100).unwrap();
    push_notes(&mut server, b"bye", 1_700_000_200).unwrap();
    // Still exactly one entry for the device, now with the new bytes.
    assert_eq!(server.entry_count(&"dev1".to_string()), 1);
    let pulled = server.pull(field("dev1"), field("s3cr3t"), field(""), field("notes.txt"));
    assert_eq!(pulled, Ok(b"bye".to_vec()));
}

#[test]
fn pushes_to_different_paths_make_two_entries() {
    let mut server = SyncCoordinator::new();
    pair_dev1(&mut server).unwrap();
    push_notes(&mut server, b"hi", 1_700_000_100).unwrap();
    server
        .push(
            field("dev1"),
            field("s3cr3t"),
            field("docs"),
            field("other.txt"),
            field("/docs"),
            field("/home/u/docs/other.txt"),
            b"more".to_vec(),
            None,
            1_700_000_300,
        )
        .unwrap();
    assert_eq!(server.entry_count(&"dev1".to_string()), 2);
}

#[test]
fn pull_of_never_pushed_path_is_not_found() {
    let mut server = SyncCoordinator::new();
    pair_dev1(&mut server).unwrap();
    let pulled = server.pull(field("dev1"), field("s3cr3t"), field(""), field("absent.txt"));
    assert_eq!(pulled, Err(ApiError::NotFoundError));
    assert_eq!(ApiError::NotFoundError.status_code(), 404);
}

#[test]
fn wrong_secret_is_unauthorized_everywhere() {
    let mut server = SyncCoordinator::new();
    pair_dev1(&mut server).unwrap();
    push_notes(&mut server, b"hi", 1_700_000_100).unwrap();
    let pulled = server.pull(field("dev1"), field("wrong-secret"), field(""), field("notes.txt"));
    assert_eq!(pulled, Err(ApiError::AuthError));
    assert_eq!(ApiError::AuthError.status_code(), 401);
    let info = server.device_info(field("dev1"), field("wrong-secret"));
    assert_eq!(info.unwrap_err(), ApiError::AuthError);
    let snap = server.snapshot(field("dev1"), field("wrong-secret"));
    assert_eq!(snap.unwrap_err(), ApiError::AuthError);
}

#[test]
fn unknown_device_is_not_found() {
    let server = SyncCoordinator::new();
    let pulled = server.pull(field("ghost"), field("s3cr3t"), field(""), field("notes.txt"));
    assert_eq!(pulled, Err(ApiError::NotFoundError));
}

#[test]
fn snapshot_lists_the_single_updated_entry() {
    let mut server = SyncCoordinator::new();
    pair_dev1(&mut server).unwrap();
    push_notes(&mut server, b"hi", 1_700_000_100).unwrap();
    push_notes(&mut server, b"bye", 1_700_000_200).unwrap();
    let listed = server.snapshot(field("dev1"), field("s3cr3t")).unwrap();
    assert_eq!(listed.len(), 1);
    let (entry_id, entry) = &listed[0];
    assert_eq!(entry_id, &entry.content_key);
    assert_eq!(entry.byte_size, 3);
    assert_eq!(entry.file_name, "notes.txt");
}

#[test]
fn modify_display_name_keeps_remote_address() {
    let mut server = SyncCoordinator::new();
    pair_dev1(&mut server).unwrap();
    let device = server
        .modify_device(field("dev1"), field("s3cr3t"), field("Tablet"), None)
        .unwrap();
    assert_eq!(device.display_name, "Tablet");
    assert_eq!(device.last_remote_address, "192.168.0.7:40000");
}

#[test]
fn modify_remote_address_keeps_display_name() {
    let mut server = SyncCoordinator::new();
    pair_dev1(&mut server).unwrap();
    let device = server
        .modify_device(field("dev1"), field("s3cr3t"), None, field("10.1.1.1:5"))
        .unwrap();
    assert_eq!(device.display_name, "Phone");
    assert_eq!(device.last_remote_address, "10.1.1.1:5");
}

#[test]
fn modify_requires_device_and_secret() {
    let mut server = SyncCoordinator::new();
    pair_dev1(&mut server).unwrap();
    let outcome = server.modify_device(field("dev1"), None, field("Tablet"), None);
    assert_eq!(outcome.unwrap_err(), ApiError::ValidationError);
}

#[test]
fn device_info_reports_current_metadata() {
    let mut server = SyncCoordinator::new();
    pair_dev1(&mut server).unwrap();
    let info = server.device_info(field("dev1"), field("s3cr3t")).unwrap();
    assert_eq!(info.device_id, "dev1");
    assert_eq!(info.display_name, "Phone");
    assert_eq!(info.last_sync_at, 1_700_000_000);
    assert!(!info.is_global);
}

#[test]
fn lost_backing_object_surfaces_integrity_fault() {
    let mut server = SyncCoordinator::new();
    pair_dev1(&mut server).unwrap();
    let entry = server
        .push(
            field("dev1"),
            field("s3cr3t"),
            field(""),
            field("notes.txt"),
            field("/docs"),
            field("/home/u/docs/notes.txt"),
            b"hi".to_vec(),
            None,
            1_700_000_100,
        )
        .unwrap();
    server.drop_backing_object(&entry.storage_location);
    let pulled = server.pull(field("dev1"), field("s3cr3t"), field(""), field("notes.txt"));
    assert_eq!(pulled, Err(ApiError::IntegrityError));
    assert_eq!(ApiError::IntegrityError.status_code(), 500);
}

#[test]
fn image_push_carries_perceptual_hash() {
    let mut server = SyncCoordinator::new();
    pair_dev1(&mut server).unwrap();
    let entry = server
        .push(
            field("dev1"),
            field("s3cr3t"),
            field("photos"),
            field("pic.png"),
            field("/photos"),
            field("/home/u/photos/pic.png"),
            vec![9u8; 4096],
            Some("image/png".to_string()),
            1_700_000_400,
        )
        .unwrap();
    let hash = entry.perceptual_hash.expect("image with a full grid gets a fingerprint");
    assert_eq!(hash.len(), 28);
    // A small image buffer yields no fingerprint, but the push still lands.
    let tiny = server
        .push(
            field("dev1"),
            field("s3cr3t"),
            field("photos"),
            field("tiny.png"),
            field("/photos"),
            field("/home/u/photos/tiny.png"),
            vec![9u8; 16],
            Some("image/png".to_string()),
            1_700_000_401,
        )
        .unwrap();
    assert_eq!(tiny.perceptual_hash, None);
}

#[test]
fn every_error_kind_has_its_status() {
    assert_eq!(ApiError::ValidationError.status_code(), 400);
    assert_eq!(ApiError::AuthError.status_code(), 401);
    assert_eq!(ApiError::NotFoundError.status_code(), 404);
    assert_eq!(ApiError::ConflictError.status_code(), 409);
    assert_eq!(ApiError::StorageError.status_code(), 500);
    assert_eq!(ApiError::IntegrityError.status_code(), 500);
    assert!(!ApiError::StorageError.message().is_empty());
    assert!(!ApiError::IntegrityError.message().is_empty());
}

#[test]
fn clock_reports_a_recent_moment() {
    // The clock hands back seconds since the epoch; any machine running
    // these tests is past 2020.
    let now = aperture::clock::now_unix_seconds();
    assert!(now > 1_577_836_800);
}

use aperture::coordinator::verify_required_data;
use aperture::credential::CredentialStore;
use aperture::errors::ApiError;
use aperture::platform::OS;
use aperture::registry::DeviceRegistry;

#[test]
fn required_data_check_sees_every_field() {
    let all_present: Vec<Option<u32>> = vec![Some(1), Some(2), Some(3)];
    assert!(verify_required_data(&all_present));
    let one_missing: Vec<Option<u32>> = vec![Some(1), None, Some(3)];
    assert!(!verify_required_data(&one_missing));
    let none_at_all: Vec<Option<u32>> = Vec::new();
    assert!(verify_required_data(&none_at_all));
}

#[test]
fn credential_store_creates_once_and_verifies_digests() {
    let mut store = CredentialStore::new();
    let id = "dev1".to_string();
    let secret = "s3cr3t".to_string();
    assert_eq!(store.create(&id, &secret), Ok(()));
    assert_eq!(store.create(&id, &secret), Err(ApiError::ConflictError));
    assert_eq!(store.len(), 1);

    let good = store.verify(&id, &secret).expect("the paired secret verifies");
    assert_eq!(good.device_id, "dev1");
    // Only the digest is stored, never the plaintext.
    assert_eq!(
        good.secret_hash,
        "4e738ca5563c06cfd0018299933d58db1dd8bf97f6973dc99bf6cdc64b5550bd"
    );

    let wrong = store.verify(&id, &"guess".to_string());
    assert_eq!(wrong.unwrap_err(), ApiError::AuthError);
    let absent = store.verify(&"ghost".to_string(), &secret);
    assert_eq!(absent.unwrap_err(), ApiError::NotFoundError);
}

#[test]
fn registry_registers_once_and_looks_up() {
    let mut registry = DeviceRegistry::new();
    let id = "dev1".to_string();
    let device = registry
        .register(
            &id,
            "Phone".to_string(),
            true,
            false,
            OS::IOS(17, 2),
            "10.0.0.9:80".to_string(),
            42,
        )
        .unwrap();
    assert_eq!(device.device_id, "dev1");
    assert_eq!(device.created_at, 42);
    assert_eq!(device.last_sync_at, 42);
    assert!(device.is_global);
    assert!(!device.is_read_only);

    let again = registry.register(
        &id,
        "Phone".to_string(),
        true,
        false,
        OS::IOS(17, 2),
        "10.0.0.9:80".to_string(),
        43,
    );
    assert_eq!(again.unwrap_err(), ApiError::ConflictError);
    assert_eq!(registry.len(), 1);

    let found = registry.lookup(&id).unwrap();
    assert_eq!(found.display_name, "Phone");
    let missing = registry.lookup(&"ghost".to_string());
    assert_eq!(missing.unwrap_err(), ApiError::NotFoundError);
}

#[test]
fn registry_patch_applies_only_supplied_fields() {
    let mut registry = DeviceRegistry::new();
    let id = "dev1".to_string();
    registry
        .register(
            &id,
            "Phone".to_string(),
            false,
            true,
            OS::Windows("22631".to_string()),
            "10.0.0.9:80".to_string(),
            42,
        )
        .unwrap();

    let renamed = registry.patch(&id, Some(&"Laptop".to_string()), None).unwrap();
    assert_eq!(renamed.display_name, "Laptop");
    assert_eq!(renamed.last_remote_address, "10.0.0.9:80");

    let moved = registry.patch(&id, None, Some(&"10.0.0.10:81".to_string())).unwrap();
    assert_eq!(moved.display_name, "Laptop");
    assert_eq!(moved.last_remote_address, "10.0.0.10:81");
    assert!(moved.is_read_only);
    assert_eq!(moved.created_at, 42);

    let missing = registry.patch(&"ghost".to_string(), Some(&"X".to_string()), None);
    assert_eq!(missing.unwrap_err(), ApiError::NotFoundError);
}

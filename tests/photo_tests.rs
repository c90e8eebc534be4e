use stander_service::error::AppError;
use stander_service::locator::{blob_id_hex, blob_locator, locator_blob_id, parse_blob_id, BlobId};
use stander_service::photo::{
    after_blob_delete, after_descriptor_delete, apply_photo_update, compensation_outcome,
    content_type_for, delete_target, descriptor_for_blob, fetched_photo, finish_upload,
    parse_photo_id, prepare_upload, validate_upload, verification_update, verified_photo,
    AssetError, MongoPhoto, PhotoMetadata, StoreFailure, UploadOutcome, UserPhoto, MAX_PHOTO_BYTES,
};

const OWNER: u128 = 0x67e5504410b1426f9247bb680e5fe0c8;

fn blob(seed: u8) -> BlobId {
    BlobId { bytes: (0..12).map(|i| seed.wrapping_add(i * 17)).collect() }
}

fn descriptor(url: &str) -> UserPhoto {
    UserPhoto {
        id: 7,
        user_id: OWNER,
        photo_type: "profile".to_string(),
        photo_url: url.to_string(),
        is_verified: false,
        created_at: 100,
        updated_at: 100,
    }
}

#[test]
fn upload_then_fetch_returns_the_same_bytes() {
    let content = vec![0xffu8, 0xd8, 0xff, 0xe0, 1, 2, 3];
    let record = prepare_upload(OWNER, "profile".to_string(), content.clone(), "JPG".to_string(), 42)
        .unwrap();
    assert_eq!(record.content_type, "image/jpeg");
    assert_eq!(record.file_size, content.len() as i64);
    assert_eq!(record.file_name, "67e55044-10b1-426f-9247-bb680e5fe0c8_profile.JPG");
    assert_eq!(record.user_id, "67e55044-10b1-426f-9247-bb680e5fe0c8");
    assert!(!record.is_verified);
    let id = blob(3);
    let (written, new) = descriptor_for_blob(Ok(id.clone()), OWNER, "profile".to_string(), 42).unwrap();
    assert_eq!(written, id);
    assert_eq!(new.created_at, 42);
    assert!(!new.is_verified);
    let fetched_id = parse_photo_id(new.photo_url.rsplit('/').next().unwrap()).unwrap();
    assert_eq!(fetched_id, id);
    assert_eq!(locator_blob_id(&new.photo_url), Some(id.clone()));
    let stored = MongoPhoto { id: Some(id), ..record };
    let fetched = fetched_photo(Ok(Some(stored))).unwrap();
    assert_eq!(fetched.photo_data, content);
}

#[test]
fn oversized_upload_is_rejected_before_any_write() {
    let content = vec![0u8; 11 * 1024 * 1024];
    let r = prepare_upload(OWNER, "profile".to_string(), content, "png".to_string(), 0);
    assert_eq!(r.unwrap_err(), AssetError::TooLarge);
    let at_limit = vec![0u8; MAX_PHOTO_BYTES];
    assert!(prepare_upload(OWNER, "profile".to_string(), at_limit, "png".to_string(), 0).is_ok());
}

#[test]
fn whitelists_reject_unknown_category_and_extension() {
    let r = prepare_upload(OWNER, "selfie".to_string(), vec![1], "png".to_string(), 0);
    assert_eq!(r.unwrap_err(), AssetError::InvalidCategory);
    let r = prepare_upload(OWNER, "profile".to_string(), vec![1], "bmp".to_string(), 0);
    assert_eq!(r.unwrap_err(), AssetError::UnsupportedFormat);
    assert_eq!(validate_upload("selfie", 1, "bmp"), Err(AssetError::InvalidCategory));
    assert_eq!(validate_upload("id_document", 1, "bmp"), Err(AssetError::UnsupportedFormat));
    assert_eq!(validate_upload("verification", 1, "webp"), Ok("image/webp"));
}

#[test]
fn extensions_map_to_content_types() {
    assert_eq!(content_type_for("jpg"), Some("image/jpeg"));
    assert_eq!(content_type_for("jpeg"), Some("image/jpeg"));
    assert_eq!(content_type_for("png"), Some("image/png"));
    assert_eq!(content_type_for("gif"), Some("image/gif"));
    assert_eq!(content_type_for("webp"), Some("image/webp"));
    assert_eq!(content_type_for("JPG"), None);
    let r = prepare_upload(OWNER, "id_document".to_string(), vec![1], "WebP".to_string(), 0);
    assert_eq!(r.unwrap().content_type, "image/webp");
}

#[test]
fn failed_insert_compensates_and_reports() {
    let id = blob(9);
    match finish_upload(id.clone(), Err(StoreFailure)) {
        UploadOutcome::Compensate(b) => assert_eq!(b, id),
        UploadOutcome::Done(_) => panic!("expected compensation"),
    }
    assert_eq!(compensation_outcome(id.clone(), Ok(true)), AssetError::Storage);
    assert_eq!(compensation_outcome(id.clone(), Err(StoreFailure)), AssetError::OrphanedBlob(id.clone()));
    assert!(matches!(finish_upload(id, Ok(descriptor("u"))), UploadOutcome::Done(d) if d.id == 7));
    assert_eq!(
        descriptor_for_blob(Err(StoreFailure), OWNER, "profile".to_string(), 0).unwrap_err(),
        AssetError::Storage
    );
}

#[test]
fn delete_twice_then_not_found() {
    let id = blob(1);
    let url = blob_locator(&id);
    assert_eq!(delete_target(Ok(Some(descriptor(&url)))), Ok(id));
    assert_eq!(after_blob_delete(Ok(true)), Ok(()));
    assert_eq!(after_descriptor_delete(Ok(1)), Ok(()));
    assert_eq!(delete_target(Ok(None)), Err(AssetError::NotFound));
}

#[test]
fn delete_after_blob_vanished_still_removes_descriptor() {
    assert_eq!(after_blob_delete(Ok(false)), Ok(()));
    assert_eq!(after_descriptor_delete(Ok(1)), Ok(()));
    assert_eq!(after_blob_delete(Err(StoreFailure)), Err(AssetError::Storage));
    assert_eq!(after_descriptor_delete(Ok(0)), Err(AssetError::NotFound));
    assert_eq!(after_descriptor_delete(Err(StoreFailure)), Err(AssetError::Storage));
}

#[test]
fn malformed_locator_is_a_validation_error() {
    assert_eq!(delete_target(Ok(Some(descriptor("/api/v1/images/0123456789abcdef01234567")))), Err(AssetError::MalformedLocator));
    assert_eq!(delete_target(Ok(Some(descriptor("photos/0123456789abcdef01234567")))), Err(AssetError::MalformedLocator));
    assert_eq!(delete_target(Ok(Some(descriptor("/api/v1/photos/xyz")))), Err(AssetError::MalformedLocator));
    assert_eq!(delete_target(Err(StoreFailure)), Err(AssetError::Storage));
    assert!(delete_target(Ok(Some(descriptor("/x/photos/0123456789ABCDEF01234567")))).is_ok());
}

#[test]
fn verify_twice_stays_verified_and_time_moves_forward() {
    let d = descriptor("/api/v1/photos/0123456789abcdef01234567");
    let once = apply_photo_update(d, verification_update(200));
    assert!(once.is_verified);
    let twice = apply_photo_update(once.clone(), verification_update(300));
    assert!(twice.is_verified);
    assert!(twice.updated_at >= once.updated_at);
    assert_eq!(twice.created_at, 100);
    assert_eq!(verified_photo(Ok(None)).unwrap_err(), AssetError::NotFound);
    assert_eq!(verified_photo(Err(StoreFailure)).unwrap_err(), AssetError::Storage);
    assert_eq!(verified_photo(Ok(Some(twice))).unwrap().updated_at, 300);
}

#[test]
fn fetch_ids_must_be_blob_identifiers() {
    assert_eq!(parse_photo_id("nope"), Err(AssetError::NotFound));
    assert_eq!(parse_photo_id("0123456789abcdef0123456"), Err(AssetError::NotFound));
    assert_eq!(parse_photo_id("0123456789abcdef0123456g"), Err(AssetError::NotFound));
    assert_eq!(fetched_photo(Ok(None)).unwrap_err(), AssetError::NotFound);
    assert_eq!(fetched_photo(Err(StoreFailure)).unwrap_err(), AssetError::Storage);
}

#[test]
fn locator_text_is_lower_case_hex() {
    let id = BlobId { bytes: vec![0x01, 0x23, 0x45, 0x67, 0x89, 0xab, 0xcd, 0xef, 0x00, 0xff, 0x10, 0x9a] };
    assert_eq!(blob_id_hex(&id), "0123456789abcdef00ff109a");
    assert_eq!(blob_locator(&id), "/api/v1/photos/0123456789abcdef00ff109a");
    assert_eq!(parse_blob_id("0123456789ABCDEF00FF109A"), Some(id.clone()));
    let record = MongoPhoto::new(OWNER, "profile".to_string(), "f".to_string(), 1, "image/png".to_string(), vec![1], 0);
    assert_eq!(record.get_photo_url(), "");
    let stored = MongoPhoto { id: Some(id), ..record };
    assert_eq!(stored.get_photo_url(), "/api/v1/photos/0123456789abcdef00ff109a");
}

#[test]
fn asset_errors_map_to_application_errors() {
    assert!(matches!(AssetError::TooLarge.to_app_error(), AppError::ValidationError(_)));
    assert!(matches!(AssetError::NotFound.to_app_error(), AppError::NotFound(_)));
    assert!(matches!(AssetError::Storage.to_app_error(), AppError::DatabaseError(_)));
    assert_eq!(AssetError::InvalidCategory.to_app_error().message(), "Invalid photo type");
}

#[test]
fn metadata_of_a_stored_record() {
    let id = BlobId { bytes: vec![0xab; 12] };
    let record = MongoPhoto::new(OWNER, "verification".to_string(), "n.gif".to_string(), 3, "image/gif".to_string(), vec![1, 2, 3], 9);
    let unstored = PhotoMetadata::from_photo(&record);
    assert_eq!(unstored.photo_id, "");
    assert_eq!(unstored.photo_url, "");
    let stored = MongoPhoto { id: Some(id), ..record };
    let m = PhotoMetadata::from_photo(&stored);
    assert_eq!(m.photo_id, "abababababababababababab");
    assert_eq!(m.photo_url, "/api/v1/photos/abababababababababababab");
    assert_eq!(m.file_name, "n.gif");
    assert_eq!(m.content_type, "image/gif");
    assert_eq!((m.file_size, m.created_at, m.updated_at, m.is_verified), (3, 9, 9, false));
}

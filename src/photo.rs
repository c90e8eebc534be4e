//! Asset lifecycle: the decisions taken around the blob store and the
//! metadata store when a photo is uploaded, fetched, deleted or verified.
//!
//! The stores themselves are driven by the caller. Each function here takes
//! what the previous store call returned and says what happens next, so a
//! driver performs, per operation:
//! - upload: `prepare_upload`, blob write, `descriptor_for_blob`, descriptor
//!   insert, `finish_upload`, and on `Compensate` a blob delete followed by
//!   `compensation_outcome`;
//! - fetch: `parse_photo_id`, blob read, `fetched_photo`;
//! - delete: descriptor lookup, `delete_target`, blob delete,
//!   `after_blob_delete`, descriptor delete, `after_descriptor_delete`;
//! - verify: `verification_update`, scoped descriptor update, `verified_photo`.

use crate::error::AppError;
use crate::locator::{blob_id_hex, blob_locator, hex_of, locator_blob_id, locator_of, parse_blob_id, BlobId};
#[allow(unused_imports)]
use crate::locator::{locator_blob_id_spec, parse_blob_id_spec};
use vstd::prelude::*;
use vstd::string::StringExecFns;

verus! {

/// Largest accepted photo: 10 MiB.
pub const MAX_PHOTO_BYTES: usize = 10485760;

/// A store call failed: the store was unreachable or rejected the operation.
#[derive(Clone, Copy, Debug, PartialEq, Eq)]
pub struct StoreFailure;

/// Why an asset operation did not complete.
#[derive(Clone, Debug, PartialEq, Eq)]
pub enum AssetError {
    /// The category is not one of the accepted ones.
    InvalidCategory,
    /// The content exceeds the size limit.
    TooLarge,
    /// The file extension has no accepted content type.
    UnsupportedFormat,
    /// A stored locator does not have the locator shape.
    MalformedLocator,
    /// No such descriptor or blob.
    NotFound,
    /// A store call failed.
    Storage,
    /// The descriptor insert failed, and so did the removal of the blob
    /// written before it, which is left behind.
    OrphanedBlob(BlobId),
}

/// The descriptor of a stored photo, as the metadata store holds it.
/// Timestamps are milliseconds since the Unix epoch.
#[derive(Clone, Debug)]
pub struct UserPhoto {
    pub id: u128,
    pub user_id: u128,
    pub photo_type: String,
    pub photo_url: String,
    pub is_verified: bool,
    pub created_at: i64,
    pub updated_at: i64,
}

/// A descriptor to insert; the metadata store assigns its id.
#[derive(Clone, Debug)]
pub struct NewUserPhoto {
    pub user_id: u128,
    pub photo_type: String,
    pub photo_url: String,
    pub is_verified: bool,
    pub created_at: i64,
    pub updated_at: i64,
}

/// Fields that a scoped descriptor update sets.
#[derive(Clone, Copy, Debug, PartialEq, Eq)]
pub struct PhotoUpdate {
    pub is_verified: bool,
    pub updated_at: i64,
}

/// The blob record of a photo, as the blob store holds it.
#[derive(Clone, Debug)]
pub struct MongoPhoto {
    pub id: Option<BlobId>,
    pub user_id: String,
    pub photo_type: String,
    pub file_name: String,
    pub file_size: i64,
    pub content_type: String,
    pub photo_data: Vec<u8>,
    pub is_verified: bool,
    pub created_at: i64,
    pub updated_at: i64,
}

/// What a caller is shown about a stored photo.
#[derive(Clone, Debug)]
pub struct PhotoMetadata {
    pub photo_id: String,
    pub user_id: String,
    pub photo_type: String,
    pub file_name: String,
    pub file_size: i64,
    pub content_type: String,
    pub photo_url: String,
    pub is_verified: bool,
    pub created_at: i64,
    pub updated_at: i64,
}

/// What `str::to_lowercase` returns for a string.
pub uninterp spec fn lowercase_of(s: Seq<char>) -> Seq<char>;

/// Relies on `str::to_lowercase`: the result depends on the characters alone.
#[verifier::external_body]
fn lowercase(s: &str) -> (r: String)
    ensures
        r@ == lowercase_of(s@),
{
    s.to_lowercase()
}

/// The text that `uuid::Uuid` displays for a 128-bit value.
pub uninterp spec fn uuid_text_of(id: u128) -> Seq<char>;

/// Relies on `uuid::Uuid::from_u128` and its `Display`: the hyphenated text
/// of the value, which depends on the value alone.
#[verifier::external_body]
fn uuid_text(id: u128) -> (r: String)
    ensures
        r@ == uuid_text_of(id),
{
    uuid::Uuid::from_u128(id).to_string()
}

/// The accepted photo categories.
pub open spec fn is_photo_category(t: Seq<char>) -> bool {
    t == "profile"@ || t == "id_document"@ || t == "verification"@
}

/// The content type for a lower-case file extension.
pub open spec fn content_type_spec(ext: Seq<char>) -> Option<Seq<char>> {
    if ext == "jpg"@ || ext == "jpeg"@ {
        Some("image/jpeg"@)
    } else if ext == "png"@ {
        Some("image/png"@)
    } else if ext == "gif"@ {
        Some("image/gif"@)
    } else if ext == "webp"@ {
        Some("image/webp"@)
    } else {
        None
    }
}

/// The checks of an upload, in order: category, size, then extension
/// (already lower-cased). On success, the content type.
pub open spec fn upload_check(photo_type: Seq<char>, size: nat, ext_lower: Seq<char>) -> Result<
    Seq<char>,
    AssetError,
> {
    if !is_photo_category(photo_type) {
        Err(AssetError::InvalidCategory)
    } else if size > MAX_PHOTO_BYTES {
        Err(AssetError::TooLarge)
    } else {
        match content_type_spec(ext_lower) {
            Some(ct) => Ok(ct),
            None => Err(AssetError::UnsupportedFormat),
        }
    }
}

/// Display name of an upload: `{owner}_{category}.{extension}`.
pub open spec fn file_name_of(user_id: u128, photo_type: Seq<char>, ext: Seq<char>) -> Seq<char> {
    uuid_text_of(user_id) + "_"@ + photo_type + "."@ + ext
}

fn same_text(a: &str, b: &str) -> (r: bool)
    ensures
        r == (a@ == b@),
{
    a.to_owned() == b.to_owned()
}

/// Whether `photo_type` is an accepted category.
pub fn is_valid_photo_type(photo_type: &str) -> (r: bool)
    ensures
        r == is_photo_category(photo_type@),
{
    same_text(photo_type, "profile") || same_text(photo_type, "id_document") || same_text(
        photo_type,
        "verification",
    )
}

/// The content type for a lower-case file extension, if it is accepted.
pub fn content_type_for(ext_lower: &str) -> (r: Option<&'static str>)
    ensures
        match r {
            Some(ct) => content_type_spec(ext_lower@) == Some(ct@),
            None => content_type_spec(ext_lower@) is None,
        },
{
    if same_text(ext_lower, "jpg") || same_text(ext_lower, "jpeg") {
        Some("image/jpeg")
    } else if same_text(ext_lower, "png") {
        Some("image/png")
    } else if same_text(ext_lower, "gif") {
        Some("image/gif")
    } else if same_text(ext_lower, "webp") {
        Some("image/webp")
    } else {
        None
    }
}

/// Runs the upload checks on a category, a content size and a lower-case
/// extension, and gives the content type on success.
pub fn validate_upload(photo_type: &str, size: usize, ext_lower: &str) -> (r: Result<
    &'static str,
    AssetError,
>)
    ensures
        match r {
            Ok(ct) => upload_check(photo_type@, size as nat, ext_lower@) == Ok::<
                Seq<char>,
                AssetError,
            >(ct@),
            Err(e) => upload_check(photo_type@, size as nat, ext_lower@) == Err::<
                Seq<char>,
                AssetError,
            >(e),
        },
{
    if !is_valid_photo_type(photo_type) {
        return Err(AssetError::InvalidCategory);
    }
    if size > MAX_PHOTO_BYTES {
        return Err(AssetError::TooLarge);
    }
    match content_type_for(ext_lower) {
        Some(ct) => Ok(ct),
        None => Err(AssetError::UnsupportedFormat),
    }
}

impl MongoPhoto {
    /// A blob record not yet stored: no id, not verified, both timestamps `now`.
    pub fn new(
        user_id: u128,
        photo_type: String,
        file_name: String,
        file_size: i64,
        content_type: String,
        photo_data: Vec<u8>,
        now: i64,
    ) -> (r: Self)
        ensures
            r.id is None,
            r.user_id@ == uuid_text_of(user_id),
            r.photo_type == photo_type,
            r.file_name == file_name,
            r.file_size == file_size,
            r.content_type == content_type,
            r.photo_data == photo_data,
            !r.is_verified,
            r.created_at == now,
            r.updated_at == now,
    {
        MongoPhoto {
            id: None,
            user_id: uuid_text(user_id),
            photo_type,
            file_name,
            file_size,
            content_type,
            photo_data,
            is_verified: false,
            created_at: now,
            updated_at: now,
        }
    }

    /// The locator of the stored blob, or the empty string before it is stored.
    pub fn get_photo_url(&self) -> (r: String)
        ensures
            match self.id {
                Some(id) => r@ == locator_of(id.bytes@),
                None => r@ == Seq::<char>::empty(),
            },
    {
        match &self.id {
            Some(id) => blob_locator(id),
            None => String::new(),
        }
    }
}

impl PhotoMetadata {
    /// The metadata of a blob record: its identifier text and locator (both
    /// empty before it is stored) and its descriptive fields.
    pub fn from_photo(photo: &MongoPhoto) -> (r: Self)
        ensures
            match photo.id {
                Some(id) => r.photo_id@ == hex_of(id.bytes@) && r.photo_url@ == locator_of(
                    id.bytes@,
                ),
                None => r.photo_id@ == Seq::<char>::empty() && r.photo_url@ == Seq::<
                    char,
                >::empty(),
            },
            r.user_id@ == photo.user_id@,
            r.photo_type@ == photo.photo_type@,
            r.file_name@ == photo.file_name@,
            r.file_size == photo.file_size,
            r.content_type@ == photo.content_type@,
            r.is_verified == photo.is_verified,
            r.created_at == photo.created_at,
            r.updated_at == photo.updated_at,
    {
        let photo_id = match &photo.id {
            Some(id) => blob_id_hex(id),
            None => String::new(),
        };
        PhotoMetadata {
            photo_id,
            user_id: photo.user_id.clone(),
            photo_type: photo.photo_type.clone(),
            file_name: photo.file_name.clone(),
            file_size: photo.file_size,
            content_type: photo.content_type.clone(),
            photo_url: photo.get_photo_url(),
            is_verified: photo.is_verified,
            created_at: photo.created_at,
            updated_at: photo.updated_at,
        }
    }
}

/// Validates an upload and builds the blob record to write. No store is
/// involved: on `Err` nothing has been written.
pub fn prepare_upload(
    user_id: u128,
    photo_type: String,
    photo_data: Vec<u8>,
    file_extension: String,
    now: i64,
) -> (r: Result<MongoPhoto, AssetError>)
    ensures
        match r {
            Ok(p) => {
                &&& upload_check(
                    photo_type@,
                    photo_data@.len(),
                    lowercase_of(file_extension@),
                ) == Ok::<Seq<char>, AssetError>(p.content_type@)
                &&& p.id is None
                &&& p.user_id@ == uuid_text_of(user_id)
                &&& p.photo_type@ == photo_type@
                &&& p.file_name@ == file_name_of(user_id, photo_type@, file_extension@)
                &&& p.file_size == photo_data@.len()
                &&& p.photo_data@ == photo_data@
                &&& !p.is_verified
                &&& p.created_at == now
                &&& p.updated_at == now
            },
            Err(e) => upload_check(photo_type@, photo_data@.len(), lowercase_of(file_extension@))
                == Err::<Seq<char>, AssetError>(e),
        },
{
    if !is_valid_photo_type(photo_type.as_str()) {
        return Err(AssetError::InvalidCategory);
    }
    if photo_data.len() > MAX_PHOTO_BYTES {
        return Err(AssetError::TooLarge);
    }
    let ext_lower = lowercase(file_extension.as_str());
    let content_type = match validate_upload(
        photo_type.as_str(),
        photo_data.len(),
        ext_lower.as_str(),
    ) {
        Ok(ct) => ct,
        Err(e) => {
            return Err(e);
        },
    };
    let mut file_name = uuid_text(user_id);
    file_name.append("_");
    file_name.append(photo_type.as_str());
    file_name.append(".");
    file_name.append(file_extension.as_str());
    let file_size = photo_data.len() as i64;
    Ok(
        MongoPhoto::new(
            user_id,
            photo_type,
            file_name,
            file_size,
            String::from_str(content_type),
            photo_data,
            now,
        ),
    )
}

/// After the blob write: the blob's identifier and the descriptor to
/// insert, which refers to the blob through its locator; a failed write is
/// a storage error.
pub fn descriptor_for_blob(
    written: Result<BlobId, StoreFailure>,
    user_id: u128,
    photo_type: String,
    now: i64,
) -> (r: Result<(BlobId, NewUserPhoto), AssetError>)
    ensures
        match written {
            Ok(id) => (r matches Ok((b, d)) && b == id && d.user_id == user_id && d.photo_type
                == photo_type && d.photo_url@ == locator_of(id.bytes@) && !d.is_verified
                && d.created_at == now && d.updated_at == now),
            Err(_) => r == Err::<(BlobId, NewUserPhoto), AssetError>(AssetError::Storage),
        },
{
    match written {
        Ok(id) => {
            let photo_url = blob_locator(&id);
            Ok(
                (
                    id,
                    NewUserPhoto {
                        user_id,
                        photo_type,
                        photo_url,
                        is_verified: false,
                        created_at: now,
                        updated_at: now,
                    },
                ),
            )
        },
        Err(_) => Err(AssetError::Storage),
    }
}

/// What follows the descriptor insert of an upload.
#[derive(Clone, Debug)]
pub enum UploadOutcome {
    /// The upload is complete.
    Done(UserPhoto),
    /// The insert failed: remove this blob, then call `compensation_outcome`.
    Compensate(BlobId),
}

/// After the descriptor insert: done, or remove the blob written before it.
pub fn finish_upload(blob: BlobId, inserted: Result<UserPhoto, StoreFailure>) -> (r: UploadOutcome)
    ensures
        match inserted {
            Ok(d) => r == UploadOutcome::Done(d),
            Err(_) => r == UploadOutcome::Compensate(blob),
        },
{
    match inserted {
        Ok(d) => UploadOutcome::Done(d),
        Err(_) => UploadOutcome::Compensate(blob),
    }
}

/// The error of an upload whose descriptor insert failed, given what the
/// removal of its blob returned: a storage error when the blob is gone,
/// and the orphaned blob when the removal failed too.
pub fn compensation_outcome(blob: BlobId, deleted: Result<bool, StoreFailure>) -> (r: AssetError)
    ensures
        match deleted {
            Ok(_) => r == AssetError::Storage,
            Err(_) => r == AssetError::OrphanedBlob(blob),
        },
{
    match deleted {
        Ok(_) => AssetError::Storage,
        Err(_) => AssetError::OrphanedBlob(blob),
    }
}

/// Reads a photo id given by a caller; any id that is not a blob
/// identifier is not found.
pub fn parse_photo_id(photo_id: &str) -> (r: Result<BlobId, AssetError>)
    ensures
        match r {
            Ok(id) => parse_blob_id_spec(photo_id@) == Some(id.bytes@),
            Err(e) => parse_blob_id_spec(photo_id@) is None && e == AssetError::NotFound,
        },
{
    match parse_blob_id(photo_id) {
        Some(id) => Ok(id),
        None => Err(AssetError::NotFound),
    }
}

/// The outcome of a blob read.
pub fn fetched_photo(found: Result<Option<MongoPhoto>, StoreFailure>) -> (r: Result<
    MongoPhoto,
    AssetError,
>)
    ensures
        match found {
            Ok(Some(p)) => r == Ok::<MongoPhoto, AssetError>(p),
            Ok(None) => r == Err::<MongoPhoto, AssetError>(AssetError::NotFound),
            Err(_) => r == Err::<MongoPhoto, AssetError>(AssetError::Storage),
        },
{
    match found {
        Ok(Some(p)) => Ok(p),
        Ok(None) => Err(AssetError::NotFound),
        Err(_) => Err(AssetError::Storage),
    }
}

/// What a delete does with the result of the owner-scoped descriptor lookup.
pub open spec fn delete_target_spec(found: Result<Option<UserPhoto>, StoreFailure>) -> Result<
    Seq<u8>,
    AssetError,
> {
    match found {
        Ok(Some(d)) => match locator_blob_id_spec(d.photo_url@) {
            Some(b) => Ok(b),
            None => Err(AssetError::MalformedLocator),
        },
        Ok(None) => Err(AssetError::NotFound),
        Err(_) => Err(AssetError::Storage),
    }
}

/// What a delete does with the result of the blob removal: an absent blob
/// is as good as a removed one.
pub open spec fn blob_delete_spec(deleted: Result<bool, StoreFailure>) -> Result<(), AssetError> {
    match deleted {
        Ok(_) => Ok(()),
        Err(_) => Err(AssetError::Storage),
    }
}

/// What a delete does with the number of descriptor rows removed.
pub open spec fn descriptor_delete_spec(removed: Result<usize, StoreFailure>) -> Result<
    (),
    AssetError,
> {
    match removed {
        Ok(n) => if n == 0 {
            Err(AssetError::NotFound)
        } else {
            Ok(())
        },
        Err(_) => Err(AssetError::Storage),
    }
}

/// After the owner-scoped descriptor lookup of a delete: the blob to remove.
pub fn delete_target(found: Result<Option<UserPhoto>, StoreFailure>) -> (r: Result<
    BlobId,
    AssetError,
>)
    ensures
        match r {
            Ok(id) => delete_target_spec(found) == Ok::<Seq<u8>, AssetError>(id.bytes@),
            Err(e) => delete_target_spec(found) == Err::<Seq<u8>, AssetError>(e),
        },
{
    match found {
        Ok(Some(d)) => match locator_blob_id(d.photo_url.as_str()) {
            Some(id) => Ok(id),
            None => Err(AssetError::MalformedLocator),
        },
        Ok(None) => Err(AssetError::NotFound),
        Err(_) => Err(AssetError::Storage),
    }
}

/// After the blob removal of a delete: go on to the descriptor, or stop.
pub fn after_blob_delete(deleted: Result<bool, StoreFailure>) -> (r: Result<(), AssetError>)
    ensures
        r == blob_delete_spec(deleted),
{
    match deleted {
        Ok(_) => Ok(()),
        Err(_) => Err(AssetError::Storage),
    }
}

/// After the descriptor removal of a delete: the outcome of the delete.
pub fn after_descriptor_delete(removed: Result<usize, StoreFailure>) -> (r: Result<
    (),
    AssetError,
>)
    ensures
        r == descriptor_delete_spec(removed),
{
    match removed {
        Ok(n) => if n == 0 {
            Err(AssetError::NotFound)
        } else {
            Ok(())
        },
        Err(_) => Err(AssetError::Storage),
    }
}

/// Deletes are safe to retry: a second delete finds no descriptor and
/// reports `NotFound`, and a blob that is already gone does not stop the
/// descriptor from being removed.
pub proof fn lemma_delete_retry_safe(removed_rows: usize)
    ensures
        delete_target_spec(Ok(None)) == Err::<Seq<u8>, AssetError>(AssetError::NotFound),
        blob_delete_spec(Ok(false)) == Ok::<(), AssetError>(()),
        blob_delete_spec(Ok(false)) == blob_delete_spec(Ok(true)),
        removed_rows > 0 ==> descriptor_delete_spec(Ok(removed_rows)) == Ok::<(), AssetError>(()),
{
}

/// The fields that verifying a descriptor sets.
pub open spec fn verification_update_spec(now: i64) -> PhotoUpdate {
    PhotoUpdate { is_verified: true, updated_at: now }
}

/// A descriptor with the fields of an update applied.
pub open spec fn apply_update_spec(d: UserPhoto, u: PhotoUpdate) -> UserPhoto {
    UserPhoto { is_verified: u.is_verified, updated_at: u.updated_at, ..d }
}

/// The scoped update that verifying a descriptor performs at `now`.
pub fn verification_update(now: i64) -> (r: PhotoUpdate)
    ensures
        r == verification_update_spec(now),
{
    PhotoUpdate { is_verified: true, updated_at: now }
}

/// Applies an update to a descriptor; every other field is kept.
pub fn apply_photo_update(d: UserPhoto, u: PhotoUpdate) -> (r: UserPhoto)
    ensures
        r == apply_update_spec(d, u),
{
    UserPhoto { is_verified: u.is_verified, updated_at: u.updated_at, ..d }
}

/// The outcome of the scoped update of a verify.
pub fn verified_photo(updated: Result<Option<UserPhoto>, StoreFailure>) -> (r: Result<
    UserPhoto,
    AssetError,
>)
    ensures
        match updated {
            Ok(Some(d)) => r == Ok::<UserPhoto, AssetError>(d),
            Ok(None) => r == Err::<UserPhoto, AssetError>(AssetError::NotFound),
            Err(_) => r == Err::<UserPhoto, AssetError>(AssetError::Storage),
        },
{
    match updated {
        Ok(Some(d)) => Ok(d),
        Ok(None) => Err(AssetError::NotFound),
        Err(_) => Err(AssetError::Storage),
    }
}

/// Verifying twice leaves the descriptor verified both times, with an
/// update time that does not go back, as long as the clock does not.
pub proof fn lemma_verify_twice(d: UserPhoto, t1: i64, t2: i64)
    requires
        t1 <= t2,
    ensures
        apply_update_spec(d, verification_update_spec(t1)).is_verified,
        apply_update_spec(
            apply_update_spec(d, verification_update_spec(t1)),
            verification_update_spec(t2),
        ).is_verified,
        apply_update_spec(d, verification_update_spec(t1)).updated_at <= apply_update_spec(
            apply_update_spec(d, verification_update_spec(t1)),
            verification_update_spec(t2),
        ).updated_at,
        apply_update_spec(
            apply_update_spec(d, verification_update_spec(t1)),
            verification_update_spec(t2),
        ).created_at == d.created_at,
{
}

/// An upload followed by a fetch reaches the uploaded blob: the locator
/// recorded for a blob, and the identifier text that a fetch is given,
/// both lead back to that blob.
pub proof fn lemma_upload_fetch_round_trip(blob: Seq<u8>)
    requires
        blob.len() == crate::locator::BLOB_ID_BYTES,
    ensures
        locator_blob_id_spec(locator_of(blob)) == Some(blob),
        parse_blob_id_spec(crate::locator::hex_of(blob)) == Some(blob),
{
    crate::locator::lemma_locator_round_trip(blob);
}

impl AssetError {
    /// The application error that a transport reports for this error.
    pub fn to_app_error(&self) -> (r: AppError)
        ensures
            match self {
                AssetError::InvalidCategory | AssetError::TooLarge | AssetError::UnsupportedFormat
                | AssetError::MalformedLocator => r is ValidationError,
                AssetError::NotFound => r is NotFound,
                AssetError::Storage | AssetError::OrphanedBlob(_) => r is DatabaseError,
            },
    {
        match self {
            AssetError::InvalidCategory => AppError::validation("Invalid photo type"),
            AssetError::TooLarge => AppError::validation(
                "File size too large. Maximum 10MB allowed",
            ),
            AssetError::UnsupportedFormat => AppError::validation("Unsupported file format"),
            AssetError::MalformedLocator => AppError::validation("Invalid photo URL format"),
            AssetError::NotFound => AppError::not_found("Photo not found"),
            AssetError::Storage => AppError::database("Storage operation failed"),
            AssetError::OrphanedBlob(_) => AppError::database(
                "Photo metadata could not be stored and the stored blob could not be removed",
            ),
        }
    }
}

} // verus!

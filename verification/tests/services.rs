use video_share::clock::Timestamp;
use video_share::error::ServiceError;
use video_share::models::attachment_blobs::{AttachmentBlob, CreateAttachmentBlob, Upload};
use video_share::models::attachments::{Attachment, RecordType, ViewParams};
use video_share::services::attachments::{attach, attach_at, detach, detach_key};
use video_share::tables::Tables;

const BASE: &str = "https://cdn.example.com";

fn stored(key: &str) -> Upload {
    Upload::Stored(CreateAttachmentBlob {
        key: key.to_string(),
        file_name: "video.mp4".to_string(),
        content_type: Some("video/mp4".to_string()),
        byte_size: 2048,
        checksum: "9e107d9d372bb6826bd81d3542a419d6".to_string(),
        service_name: "s3".to_string(),
    })
}

fn at(micros: i64) -> Timestamp {
    Timestamp::from_micros(micros)
}

fn attached(db: &mut Tables, owner: i32, key: &str) -> Attachment {
    attach_at(db, owner, "video.mp4".to_string(), RecordType::Video, 5, &stored(key), at(10)).unwrap()
}

#[test]
fn describe_counts_the_bytes() {
    let data: Vec<u8> = vec![1, 2, 3, 4, 5];
    let descriptor = CreateAttachmentBlob::describe(
        "k".to_string(),
        "sum".to_string(),
        "a.mp4".to_string(),
        None,
        "s3".to_string(),
        &data,
    );
    assert_eq!(
        descriptor,
        Some(CreateAttachmentBlob {
            key: "k".to_string(),
            file_name: "a.mp4".to_string(),
            content_type: None,
            byte_size: 5,
            checksum: "sum".to_string(),
            service_name: "s3".to_string(),
        })
    );
    let empty = CreateAttachmentBlob::describe(
        "k".to_string(),
        "sum".to_string(),
        "a.mp4".to_string(),
        Some("video/mp4".to_string()),
        "s3".to_string(),
        &Vec::new(),
    )
    .unwrap();
    assert_eq!(empty.byte_size, 0);
    assert_eq!(empty.content_type, Some("video/mp4".to_string()));
}

#[test]
fn attach_makes_a_blob_and_an_attachment() {
    let mut db = Tables::new();
    let row = attach_at(&mut db, 7, "video.mp4".to_string(), RecordType::Video, 5, &stored("k1"), at(10));
    assert_eq!(
        row,
        Ok(Attachment {
            id: 1,
            user_id: 7,
            name: "video.mp4".to_string(),
            record_type: RecordType::Video,
            record_id: 5,
            blob_id: 1,
            created_at: at(10),
        })
    );
    assert_eq!(db.attachments().len(), 1);
    assert_eq!(db.blobs().len(), 1);
    assert_eq!(
        db.blobs()[0],
        AttachmentBlob {
            id: 1,
            key: "k1".to_string(),
            file_name: "video.mp4".to_string(),
            content_type: Some("video/mp4".to_string()),
            byte_size: 2048,
            checksum: "9e107d9d372bb6826bd81d3542a419d6".to_string(),
            service_name: "s3".to_string(),
            created_at: at(10),
        }
    );
}

#[test]
fn attach_by_the_clock_stamps_the_rows() {
    let mut db = Tables::new();
    let before = Timestamp::now();
    let row = attach(&mut db, 7, "video.mp4".to_string(), RecordType::Video, 5, &stored("k1")).unwrap();
    let after = Timestamp::now();
    assert_eq!(row.id, 1);
    assert_eq!(db.blobs()[0].created_at, row.created_at);
    assert!(before.micros <= row.created_at.micros + 5_000_000);
    assert!(row.created_at.micros <= after.micros + 5_000_000);
}

#[test]
fn attach_then_resolve_url_holds_the_key_once() {
    let mut db = Tables::new();
    let key = "3f2b8c1e-user-upload";
    let row = attached(&mut db, 7, key);
    let url = Attachment::read_id(&db, row.id, BASE).unwrap();
    assert_eq!(url, "https://cdn.example.com/3f2b8c1e-user-upload");
    assert_eq!(url.matches(key).count(), 1);
    assert!(url.ends_with(key));
    // No pair of slashes but the one of the scheme.
    assert_eq!(url.matches("//").count(), 1);
    assert!(url.starts_with("https://"));
}

#[test]
fn attach_of_a_failed_upload_is_a_storage_error() {
    let mut db = Tables::new();
    let result = attach_at(&mut db, 7, "video.mp4".to_string(), RecordType::Video, 5, &Upload::Failed, at(10));
    assert_eq!(result, Err(ServiceError::StorageError));
    assert!(db.blobs().is_empty());
    assert!(db.attachments().is_empty());
    // Nothing was used up: the next upload gets the first keys.
    assert_eq!(attached(&mut db, 7, "k1").id, 1);
}

#[test]
fn attach_refuses_a_storage_key_in_use_and_keeps_nothing() {
    let mut db = Tables::new();
    attached(&mut db, 7, "k1");
    let again = attach_at(&mut db, 8, "other.mp4".to_string(), RecordType::Video, 6, &stored("k1"), at(11));
    assert_eq!(again, Err(ServiceError::Conflict));
    assert_eq!(db.blobs().len(), 1);
    assert_eq!(db.attachments().len(), 1);
    assert_eq!(db.attachments()[0].user_id, 7);
}

#[test]
fn attach_refuses_a_negative_size() {
    let mut db = Tables::new();
    let upload = match stored("k1") {
        Upload::Stored(descriptor) => Upload::Stored(CreateAttachmentBlob { byte_size: -1, ..descriptor }),
        Upload::Failed => Upload::Failed,
    };
    let result = attach_at(&mut db, 7, "video.mp4".to_string(), RecordType::Video, 5, &upload, at(10));
    assert_eq!(result, Err(ServiceError::ValidationError));
    assert!(db.blobs().is_empty());
    assert!(db.attachments().is_empty());
}

#[test]
fn attach_twice_by_one_user_gives_two_attachments() {
    let mut db = Tables::new();
    let first = attached(&mut db, 7, "k1");
    let second = attached(&mut db, 7, "k2");
    assert_eq!((first.id, first.blob_id), (1, 1));
    assert_eq!((second.id, second.blob_id), (2, 2));
    assert_eq!(Attachment::read_id(&db, 2, BASE), Ok("https://cdn.example.com/k2".to_string()));
}

#[test]
fn attach_after_a_stray_blob_points_at_its_own_blob() {
    let mut db = Tables::new();
    let stray = match stored("stray") {
        Upload::Stored(descriptor) => descriptor,
        Upload::Failed => unreachable!(),
    };
    AttachmentBlob::create(&mut db, &stray, at(1)).unwrap();
    let row = attached(&mut db, 7, "k1");
    assert_eq!((row.id, row.blob_id), (1, 2));
    assert_eq!(Attachment::read_id(&db, 1, BASE), Ok("https://cdn.example.com/k1".to_string()));
}

#[test]
fn detach_key_names_the_object() {
    let mut db = Tables::new();
    attached(&mut db, 7, "k1");
    assert_eq!(detach_key(&db, 1, 7), Ok(Some("k1".to_string())));
}

#[test]
fn detach_key_is_for_the_owner_alone() {
    let mut db = Tables::new();
    attached(&mut db, 7, "k1");
    assert_eq!(detach_key(&db, 1, 8), Err(ServiceError::Forbidden));
    assert_eq!(detach_key(&db, 2, 7), Err(ServiceError::NotFound));
    assert_eq!(detach_key(&db, 2, 8), Err(ServiceError::NotFound));
}

#[test]
fn detach_key_is_none_once_the_blob_is_gone() {
    let mut db = Tables::new();
    attached(&mut db, 7, "k1");
    assert_eq!(AttachmentBlob::delete(&mut db, 1), 1);
    assert_eq!(detach_key(&db, 1, 7), Ok(None));
}

#[test]
fn detach_by_a_non_owner_is_forbidden_and_changes_nothing() {
    let mut db = Tables::new();
    let row = attached(&mut db, 7, "k1");
    let blob = db.blobs()[0].clone();
    for object_deleted in [false, true] {
        assert_eq!(detach(&mut db, 1, 8, object_deleted), Err(ServiceError::Forbidden));
        assert_eq!(db.attachments().as_slice(), &[row.clone()]);
        assert_eq!(db.blobs().as_slice(), &[blob.clone()]);
    }
    assert_eq!(Attachment::read_id(&db, 1, BASE), Ok("https://cdn.example.com/k1".to_string()));
}

#[test]
fn detach_by_the_owner_removes_attachment_and_blob() {
    let mut db = Tables::new();
    attached(&mut db, 7, "k1");
    attached(&mut db, 7, "k2");
    assert_eq!(detach(&mut db, 1, 7, true), Ok(()));
    assert_eq!(db.attachments().iter().map(|a| a.id).collect::<Vec<i32>>(), vec![2]);
    assert_eq!(db.blobs().iter().map(|b| b.id).collect::<Vec<i32>>(), vec![2]);
    assert_eq!(Attachment::read_id(&db, 1, BASE), Err(ServiceError::NotFound));
    assert_eq!(Attachment::read(&db, 1), Err(ServiceError::NotFound));
    assert_eq!(AttachmentBlob::find_by_id(&db, 1), Err(ServiceError::NotFound));
    assert_eq!(Attachment::read_id(&db, 2, BASE), Ok("https://cdn.example.com/k2".to_string()));
}

#[test]
fn detach_twice_misses_the_second_time() {
    let mut db = Tables::new();
    attached(&mut db, 7, "k1");
    assert_eq!(detach(&mut db, 1, 7, true), Ok(()));
    assert_eq!(detach(&mut db, 1, 7, true), Err(ServiceError::NotFound));
}

#[test]
fn detach_waits_for_the_object_to_go() {
    let mut db = Tables::new();
    attached(&mut db, 7, "k1");
    assert_eq!(detach(&mut db, 1, 7, false), Err(ServiceError::StorageError));
    assert_eq!(db.attachments().len(), 1);
    assert_eq!(db.blobs().len(), 1);
    assert_eq!(detach(&mut db, 1, 7, true), Ok(()));
    assert!(db.attachments().is_empty());
    assert!(db.blobs().is_empty());
}

#[test]
fn detach_finishes_where_only_the_attachment_is_left() {
    let mut db = Tables::new();
    attached(&mut db, 7, "k1");
    assert_eq!(AttachmentBlob::delete(&mut db, 1), 1);
    // Nothing is left to delete in the storage, so its report decides nothing.
    assert_eq!(detach(&mut db, 1, 7, false), Ok(()));
    assert!(db.attachments().is_empty());
}

#[test]
fn detach_of_a_missing_attachment() {
    let mut db = Tables::new();
    assert_eq!(detach(&mut db, 1, 7, true), Err(ServiceError::NotFound));
}

#[test]
fn keys_grow_after_a_detach() {
    let mut db = Tables::new();
    attached(&mut db, 7, "k1");
    assert_eq!(detach(&mut db, 1, 7, true), Ok(()));
    let row = attached(&mut db, 7, "k1");
    assert_eq!((row.id, row.blob_id), (2, 2));
}

#[test]
fn ownership_is_by_user_id() {
    let mut db = Tables::new();
    let row = attached(&mut db, 7, "k1");
    assert!(row.is_owned_by(7));
    assert!(!row.is_owned_by(8));
    assert!(!row.is_owned_by(-7));
    assert_eq!(row.owner_only(7), Ok(()));
    assert_eq!(row.owner_only(8), Err(ServiceError::Forbidden));
}

#[test]
fn view_params_name_an_attachment() {
    let mut db = Tables::new();
    attached(&mut db, 7, "k1");
    let params = ViewParams { id: 1 };
    assert_eq!(Attachment::read_id(&db, params.id, BASE), Ok("https://cdn.example.com/k1".to_string()));
}

#[test]
fn errors_map_to_statuses() {
    assert_eq!(ServiceError::NotFound.status_code(), 404);
    assert_eq!(ServiceError::Expired.status_code(), 404);
    assert_eq!(ServiceError::Forbidden.status_code(), 403);
    assert_eq!(ServiceError::ValidationError.status_code(), 400);
    assert_eq!(ServiceError::Conflict.status_code(), 500);
    assert_eq!(ServiceError::StorageError.status_code(), 500);
    assert_eq!(ServiceError::Internal.status_code(), 500);
}

#[test]
fn expired_and_conflict_are_not_surfaced() {
    assert_eq!(ServiceError::Expired.surfaced(), ServiceError::NotFound);
    assert_eq!(ServiceError::Conflict.surfaced(), ServiceError::Internal);
    for e in [
        ServiceError::NotFound,
        ServiceError::Forbidden,
        ServiceError::StorageError,
        ServiceError::ValidationError,
        ServiceError::Internal,
    ] {
        assert_eq!(e.surfaced(), e);
    }
}

#[test]
fn tables_resume_their_keys() {
    let mut db = Tables::resuming(40, 50, 60);
    let row = attached(&mut db, 7, "k1");
    assert_eq!((row.id, row.blob_id), (50, 40));
    let mut db = Tables::resuming(0, -3, i32::MIN);
    let row = attached(&mut db, 7, "k1");
    assert_eq!((row.id, row.blob_id), (1, 1));
}

#[test]
fn blob_create_fails_once_the_keys_are_used_up() {
    let mut db = Tables::resuming(i32::MAX - 1, 1, 1);
    let descriptor = |key: &str| match stored(key) {
        Upload::Stored(descriptor) => descriptor,
        Upload::Failed => unreachable!(),
    };
    assert_eq!(AttachmentBlob::create(&mut db, &descriptor("a"), at(1)).unwrap().id, i32::MAX - 1);
    assert_eq!(AttachmentBlob::create(&mut db, &descriptor("b"), at(1)), Err(ServiceError::Internal));
    assert_eq!(AttachmentBlob::refusal(&db, &descriptor("b")), Some(ServiceError::Internal));
    // A storage key in use is reported before the lack of keys.
    assert_eq!(AttachmentBlob::create(&mut db, &descriptor("a"), at(1)), Err(ServiceError::Conflict));
    assert_eq!(db.blobs().len(), 1);
}

#[test]
fn attach_keeps_no_blob_where_the_attachment_cannot_be_made() {
    let mut db = Tables::resuming(1, i32::MAX, 1);
    let result = attach_at(&mut db, 7, "video.mp4".to_string(), RecordType::Video, 5, &stored("k1"), at(10));
    assert_eq!(result, Err(ServiceError::Internal));
    assert!(db.blobs().is_empty());
    assert!(db.attachments().is_empty());
    // The key of the blob was not used up either.
    assert_eq!(AttachmentBlob::refusal(&db, &match stored("k1") {
        Upload::Stored(descriptor) => descriptor,
        Upload::Failed => unreachable!(),
    }), None);
}

#[test]
fn attach_fails_once_the_blob_keys_are_used_up() {
    let mut db = Tables::resuming(i32::MAX, 1, 1);
    let result = attach_at(&mut db, 7, "video.mp4".to_string(), RecordType::Video, 5, &stored("k1"), at(10));
    assert_eq!(result, Err(ServiceError::Internal));
    assert!(db.blobs().is_empty());
    assert!(db.attachments().is_empty());
}

#[test]
fn attachment_create_fails_once_the_keys_are_used_up() {
    let mut db = Tables::resuming(1, i32::MAX, 1);
    let descriptor = match stored("k1") {
        Upload::Stored(descriptor) => descriptor,
        Upload::Failed => unreachable!(),
    };
    AttachmentBlob::create(&mut db, &descriptor, at(1)).unwrap();
    let item = video_share::models::attachments::CreateAttachment {
        user_id: 7,
        name: "n".to_string(),
        record_type: RecordType::Video,
        record_id: 1,
        blob_id: 1,
    };
    assert_eq!(Attachment::create(&mut db, &item, at(2)), Err(ServiceError::Internal));
    assert!(db.attachments().is_empty());
}

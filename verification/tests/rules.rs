use video_share::clock::Timestamp;
use video_share::error::ServiceError;
use video_share::models::attachment_blobs::{AttachmentBlob, CreateAttachmentBlob, Upload};
use video_share::models::attachments::{Attachment, RecordType};
use video_share::models::video_shares::VideoShare;
use video_share::rules::{
    address, attachment_refusal, blob_refusal, detach_plan, detach_verdict, pick_free, removal,
    share_refusal, shared_video, stored, token_place,
};
use video_share::services::shares::SharedVideo;
use video_share::token::ShareToken;

fn at(micros: i64) -> Timestamp {
    Timestamp::from_micros(micros)
}

fn descriptor(key: &str, size: i64) -> CreateAttachmentBlob {
    CreateAttachmentBlob {
        key: key.to_string(),
        file_name: "a.mp4".to_string(),
        content_type: None,
        byte_size: size,
        checksum: "c".to_string(),
        service_name: "s3".to_string(),
    }
}

fn blob(id: i32, key: &str) -> AttachmentBlob {
    descriptor(key, 1).to_row(id, at(1))
}

fn attachment(id: i32, owner: i32, blob_id: i32) -> Attachment {
    Attachment {
        id,
        user_id: owner,
        name: "n".to_string(),
        record_type: RecordType::Video,
        record_id: 1,
        blob_id,
        created_at: at(2),
    }
}

fn link(id: i32, bits: u128, expires_at: Option<i64>) -> VideoShare {
    VideoShare {
        id,
        video_id: 1,
        shared_by: 7,
        shared_with: "b@example.com".to_string(),
        share_token: ShareToken::from_u128(bits),
        start_time: Some(at(3)),
        expires_at: expires_at.map(at),
        created_at: Some(at(4)),
    }
}

#[test]
fn blob_is_refused_for_size_then_key_then_keys_left() {
    assert_eq!(blob_refusal(&descriptor("k", 0), false, true), None);
    assert_eq!(blob_refusal(&descriptor("k", -1), true, false), Some(ServiceError::ValidationError));
    assert_eq!(blob_refusal(&descriptor("k", 5), true, false), Some(ServiceError::Conflict));
    assert_eq!(blob_refusal(&descriptor("k", 5), false, false), Some(ServiceError::Internal));
}

#[test]
fn upload_that_failed_is_a_storage_error() {
    assert_eq!(stored(&Upload::Failed), Err(ServiceError::StorageError));
    assert_eq!(stored(&Upload::Stored(descriptor("k", 3))), Ok(descriptor("k", 3)));
}

#[test]
fn attachment_is_refused_for_blob_then_owner_then_keys_left() {
    assert_eq!(attachment_refusal(true, false, true), None);
    assert_eq!(attachment_refusal(false, true, false), Some(ServiceError::NotFound));
    assert_eq!(attachment_refusal(true, true, false), Some(ServiceError::Conflict));
    assert_eq!(attachment_refusal(true, false, false), Some(ServiceError::Internal));
}

#[test]
fn attachment_goes_only_after_its_blob() {
    assert_eq!(removal(false, false), Ok(0));
    assert_eq!(removal(false, true), Ok(0));
    assert_eq!(removal(true, true), Err(ServiceError::Conflict));
    assert_eq!(removal(true, false), Ok(1));
}

#[test]
fn address_needs_attachment_and_blob() {
    let a = attachment(1, 7, 2);
    let b = blob(2, "k2");
    assert_eq!(address(Some(&a), Some(&b), "https://cdn/"), Ok("https://cdn/k2".to_string()));
    assert_eq!(address(Some(&a), None, "https://cdn"), Err(ServiceError::NotFound));
    assert_eq!(address(None, Some(&b), "https://cdn"), Err(ServiceError::NotFound));
    assert_eq!(address(None, None, "https://cdn"), Err(ServiceError::NotFound));
}

#[test]
fn detach_plan_names_the_key_for_the_owner_alone() {
    let a = attachment(1, 7, 2);
    let b = blob(2, "k2");
    assert_eq!(detach_plan(Some(&a), Some(&b), 7), Ok(Some("k2".to_string())));
    assert_eq!(detach_plan(Some(&a), None, 7), Ok(None));
    assert_eq!(detach_plan(Some(&a), Some(&b), 8), Err(ServiceError::Forbidden));
    assert_eq!(detach_plan(Some(&a), None, 8), Err(ServiceError::Forbidden));
    assert_eq!(detach_plan(None, Some(&b), 7), Err(ServiceError::NotFound));
    assert_eq!(detach_plan(None, None, 7), Err(ServiceError::NotFound));
}

#[test]
fn detach_waits_for_the_named_object() {
    assert_eq!(detach_verdict(&Ok(Some("k".to_string())), true), Ok(()));
    assert_eq!(detach_verdict(&Ok(Some("k".to_string())), false), Err(ServiceError::StorageError));
    assert_eq!(detach_verdict(&Ok(None), false), Ok(()));
    assert_eq!(detach_verdict(&Ok(None), true), Ok(()));
    assert_eq!(detach_verdict(&Err(ServiceError::Forbidden), true), Err(ServiceError::Forbidden));
    assert_eq!(detach_verdict(&Err(ServiceError::NotFound), false), Err(ServiceError::NotFound));
}

#[test]
fn share_is_refused_for_attachment_then_owner_then_keys_left() {
    let a = attachment(1, 7, 2);
    assert_eq!(share_refusal(Some(&a), 7, true), None);
    assert_eq!(share_refusal(None, 7, false), Some(ServiceError::NotFound));
    assert_eq!(share_refusal(Some(&a), 8, false), Some(ServiceError::Forbidden));
    assert_eq!(share_refusal(Some(&a), 7, false), Some(ServiceError::Internal));
}

#[test]
fn token_place_finds_the_link() {
    let shares = vec![link(1, 11, None), link(2, 12, None)];
    assert_eq!(token_place(&shares, ShareToken::from_u128(12)), Some(1));
    assert_eq!(token_place(&shares, ShareToken::from_u128(13)), None);
    assert_eq!(token_place(&Vec::new(), ShareToken::from_u128(11)), None);
}

#[test]
fn pick_free_passes_over_tokens_in_use() {
    let shares = vec![link(1, 11, None), link(2, 12, None)];
    let t = ShareToken::from_u128;
    assert_eq!(pick_free(&vec![t(11), t(13), t(14)], &shares), Ok(t(13)));
    assert_eq!(pick_free(&vec![t(9), t(11)], &shares), Ok(t(9)));
    assert_eq!(pick_free(&vec![t(12), t(11), t(11)], &shares), Err(ServiceError::Internal));
    assert_eq!(pick_free(&Vec::new(), &shares), Err(ServiceError::Internal));
    assert_eq!(pick_free(&vec![t(11)], &Vec::new()), Ok(t(11)));
}

#[test]
fn shared_video_is_for_the_recipient_until_the_expiry() {
    let share = link(1, 11, Some(100));
    let url = || Ok("https://cdn/k".to_string());
    assert_eq!(
        shared_video(Some(&share), url(), Some("b@example.com"), at(99), true),
        Ok(SharedVideo {
            video: "https://cdn/k".to_string(),
            start_time: Some(at(3)),
            shared_by: 7,
            shared_with: "b@example.com".to_string(),
        })
    );
    assert_eq!(shared_video(Some(&share), url(), Some("b@example.com"), at(100), true), Err(ServiceError::NotFound));
    assert_eq!(shared_video(Some(&share), url(), Some("c@example.com"), at(99), true), Err(ServiceError::Forbidden));
    assert_eq!(shared_video(Some(&share), url(), None, at(99), true), Err(ServiceError::Forbidden));
    assert!(shared_video(Some(&share), url(), None, at(99), false).is_ok());
    assert_eq!(shared_video(None, url(), Some("b@example.com"), at(99), true), Err(ServiceError::NotFound));
    assert_eq!(
        shared_video(Some(&share), Err(ServiceError::NotFound), Some("b@example.com"), at(99), true),
        Err(ServiceError::NotFound)
    );
    // Who may not view learns nothing of the attachment.
    assert_eq!(
        shared_video(Some(&share), Err(ServiceError::NotFound), Some("c@example.com"), at(99), true),
        Err(ServiceError::Forbidden)
    );
}

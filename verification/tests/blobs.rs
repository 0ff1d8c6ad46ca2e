use video_share::clock::Timestamp;
use video_share::error::ServiceError;
use video_share::models::attachment_blobs::{
    holds_id, AttachmentBlob, AttachmentBlobChangeset, CreateAttachmentBlob, UpdateAttachmentBlob,
};
use video_share::tables::Tables;

fn descriptor(key: &str, size: i64) -> CreateAttachmentBlob {
    CreateAttachmentBlob {
        key: key.to_string(),
        file_name: format!("{}.mp4", key),
        content_type: Some("video/mp4".to_string()),
        byte_size: size,
        checksum: format!("sum-{}", key),
        service_name: "s3".to_string(),
    }
}

fn at(micros: i64) -> Timestamp {
    Timestamp::from_micros(micros)
}

fn filled(keys: &[&str]) -> Tables {
    let mut db = Tables::new();
    for key in keys {
        AttachmentBlob::create(&mut db, &descriptor(key, 10), at(1)).unwrap();
    }
    db
}

#[test]
fn new_tables_are_empty() {
    let db = Tables::new();
    assert!(db.blobs().is_empty());
    assert!(db.attachments().is_empty());
    assert!(db.shares().is_empty());
}

#[test]
fn blob_create_copies_the_descriptor() {
    let mut db = Tables::new();
    let row = AttachmentBlob::create(&mut db, &descriptor("k1", 1234), at(77)).unwrap();
    assert_eq!(
        row,
        AttachmentBlob {
            id: 1,
            key: "k1".to_string(),
            file_name: "k1.mp4".to_string(),
            content_type: Some("video/mp4".to_string()),
            byte_size: 1234,
            checksum: "sum-k1".to_string(),
            service_name: "s3".to_string(),
            created_at: at(77),
        }
    );
    assert_eq!(db.blobs().len(), 1);
    assert_eq!(db.blobs()[0], row);
}

#[test]
fn blob_create_counts_keys_up() {
    let mut db = Tables::new();
    let first = AttachmentBlob::create(&mut db, &descriptor("a", 0), at(1)).unwrap();
    let second = AttachmentBlob::create(&mut db, &descriptor("b", 0), at(2)).unwrap();
    let third = AttachmentBlob::create(&mut db, &descriptor("c", 0), at(3)).unwrap();
    assert_eq!((first.id, second.id, third.id), (1, 2, 3));
}

#[test]
fn blob_keys_are_not_reused_after_a_delete() {
    let mut db = filled(&["a", "b"]);
    assert_eq!(AttachmentBlob::delete(&mut db, 2), 1);
    let next = AttachmentBlob::create(&mut db, &descriptor("c", 0), at(3)).unwrap();
    assert_eq!(next.id, 3);
}

#[test]
fn blob_create_refuses_a_storage_key_in_use() {
    let mut db = filled(&["a"]);
    let again = AttachmentBlob::create(&mut db, &descriptor("a", 5), at(9));
    assert_eq!(again, Err(ServiceError::Conflict));
    assert_eq!(db.blobs().len(), 1);
    assert_eq!(db.blobs()[0].byte_size, 10);
}

#[test]
fn blob_create_refuses_a_negative_size() {
    let mut db = Tables::new();
    let result = AttachmentBlob::create(&mut db, &descriptor("a", -1), at(9));
    assert_eq!(result, Err(ServiceError::ValidationError));
    assert!(db.blobs().is_empty());
    // The refused descriptor used no key.
    assert_eq!(AttachmentBlob::create(&mut db, &descriptor("a", 0), at(9)).unwrap().id, 1);
}

#[test]
fn blob_create_checks_the_size_before_the_key() {
    let mut db = filled(&["a"]);
    let result = AttachmentBlob::create(&mut db, &descriptor("a", -1), at(9));
    assert_eq!(result, Err(ServiceError::ValidationError));
}

#[test]
fn blob_create_takes_a_descriptor_without_content_type() {
    let mut db = Tables::new();
    let item = AttachmentBlobChangeset { content_type: None, ..descriptor("a", 3) };
    let row = AttachmentBlob::create(&mut db, &item, at(9)).unwrap();
    assert_eq!(row.content_type, None);
}

#[test]
fn blob_refusal_says_why() {
    let db = filled(&["a"]);
    assert_eq!(AttachmentBlob::refusal(&db, &descriptor("b", 0)), None);
    assert_eq!(AttachmentBlob::refusal(&db, &descriptor("a", 0)), Some(ServiceError::Conflict));
    assert_eq!(AttachmentBlob::refusal(&db, &descriptor("b", -1)), Some(ServiceError::ValidationError));
    assert!(AttachmentBlob::key_in_use(&db, &"a".to_string()));
    assert!(!AttachmentBlob::key_in_use(&db, &"A".to_string()));
}

#[test]
fn blob_find_by_id_finds_the_row() {
    let db = filled(&["a", "b", "c"]);
    assert_eq!(AttachmentBlob::find_by_id(&db, 2).unwrap().key, "b");
    assert_eq!(AttachmentBlob::read(&db, 3).unwrap().key, "c");
    assert_eq!(AttachmentBlob::find_by_id(&db, 2), AttachmentBlob::read(&db, 2));
}

#[test]
fn blob_find_by_id_misses() {
    let db = filled(&["a"]);
    assert_eq!(AttachmentBlob::find_by_id(&db, 2), Err(ServiceError::NotFound));
    assert_eq!(AttachmentBlob::find_by_id(&db, 0), Err(ServiceError::NotFound));
    assert_eq!(AttachmentBlob::read(&db, -1), Err(ServiceError::NotFound));
    assert_eq!(AttachmentBlob::read(&Tables::new(), 1), Err(ServiceError::NotFound));
}

#[test]
fn blob_find_all_by_id_keeps_table_order() {
    let db = filled(&["a", "b", "c", "d"]);
    let found = AttachmentBlob::find_all_by_id(&db, vec![4, 2, 9, 2]);
    let keys: Vec<&str> = found.iter().map(|b| b.key.as_str()).collect();
    assert_eq!(keys, vec!["b", "d"]);
    assert!(AttachmentBlob::find_all_by_id(&db, vec![]).is_empty());
    assert!(AttachmentBlob::find_all_by_id(&db, vec![7, 8]).is_empty());
}

#[test]
fn holds_id_is_membership() {
    assert!(holds_id(&vec![3, 1, 2], 1));
    assert!(!holds_id(&vec![3, 1, 2], 4));
    assert!(!holds_id(&vec![], 0));
}

#[test]
fn blob_delete_removes_one_row() {
    let mut db = filled(&["a", "b", "c"]);
    assert_eq!(AttachmentBlob::delete(&mut db, 2), 1);
    let keys: Vec<&str> = db.blobs().iter().map(|b| b.key.as_str()).collect();
    assert_eq!(keys, vec!["a", "c"]);
    assert_eq!(AttachmentBlob::delete(&mut db, 2), 0);
    assert_eq!(db.blobs().len(), 2);
    assert_eq!(AttachmentBlob::find_by_id(&db, 2), Err(ServiceError::NotFound));
}

#[test]
fn blob_delete_frees_the_storage_key() {
    let mut db = filled(&["a"]);
    assert_eq!(AttachmentBlob::delete(&mut db, 1), 1);
    let again = AttachmentBlob::create(&mut db, &descriptor("a", 0), at(2)).unwrap();
    assert_eq!(again.id, 2);
}

#[test]
fn blob_delete_all_counts_the_rows_that_went() {
    let mut db = filled(&["a", "b", "c", "d"]);
    assert_eq!(AttachmentBlob::delete_all(&mut db, vec![1, 3, 3, 8]), 2);
    let ids: Vec<i32> = db.blobs().iter().map(|b| b.id).collect();
    assert_eq!(ids, vec![2, 4]);
    assert_eq!(AttachmentBlob::delete_all(&mut db, vec![]), 0);
    assert_eq!(AttachmentBlob::delete_all(&mut db, vec![2, 4]), 2);
    assert!(db.blobs().is_empty());
}

#[test]
fn blob_paginate_slices_the_table() {
    let db = filled(&["a", "b", "c", "d", "e"]);
    let first = AttachmentBlob::paginate(&db, 0, 2).unwrap();
    assert_eq!(first.items.iter().map(|b| b.id).collect::<Vec<i32>>(), vec![1, 2]);
    assert_eq!((first.total_items, first.page, first.page_size, first.num_pages), (5, 0, 2, 3));
    let last = AttachmentBlob::paginate(&db, 2, 2).unwrap();
    assert_eq!(last.items.iter().map(|b| b.id).collect::<Vec<i32>>(), vec![5]);
    assert_eq!((last.total_items, last.page, last.page_size, last.num_pages), (5, 2, 2, 3));
    let beyond = AttachmentBlob::paginate(&db, 3, 2).unwrap();
    assert!(beyond.items.is_empty());
    assert_eq!((beyond.total_items, beyond.page, beyond.page_size, beyond.num_pages), (5, 3, 2, 3));
}

#[test]
fn blob_paginate_clamps_the_size() {
    let db = filled(&["a", "b", "c"]);
    let page = AttachmentBlob::paginate(&db, 1, 0).unwrap();
    assert_eq!(page.items.iter().map(|b| b.id).collect::<Vec<i32>>(), vec![2]);
    assert_eq!((page.page_size, page.num_pages), (1, 3));
    let page = AttachmentBlob::paginate(&db, 2, -10).unwrap();
    assert_eq!(page.items.iter().map(|b| b.id).collect::<Vec<i32>>(), vec![3]);
}

#[test]
fn blob_paginate_refuses_a_negative_page() {
    let db = filled(&["a"]);
    assert!(matches!(AttachmentBlob::paginate(&db, -1, 10), Err(ServiceError::ValidationError)));
}

#[test]
fn blob_paginate_of_an_empty_table() {
    let page = AttachmentBlob::paginate(&Tables::new(), 0, 10).unwrap();
    assert!(page.items.is_empty());
    assert_eq!((page.total_items, page.num_pages), (0, 0));
}

#[test]
fn blob_clone_is_equal() {
    let item = descriptor("a", 3);
    assert_eq!(item.clone(), item);
    let row = item.to_row(9, at(4));
    assert_eq!(row.clone(), row);
    assert_eq!(row.id, 9);
    assert_eq!(row.created_at, at(4));
}

#[test]
fn blob_update_changes_the_description_only() {
    let mut db = filled(&["a", "b"]);
    let changes = UpdateAttachmentBlob {
        file_name: Some("holiday.mp4".to_string()),
        content_type: Some(None),
        service_name: None,
    };
    let updated = AttachmentBlob::update(&mut db, 2, &changes).unwrap();
    assert_eq!(
        updated,
        AttachmentBlob {
            id: 2,
            key: "b".to_string(),
            file_name: "holiday.mp4".to_string(),
            content_type: None,
            byte_size: 10,
            checksum: "sum-b".to_string(),
            service_name: "s3".to_string(),
            created_at: at(1),
        }
    );
    assert_eq!(AttachmentBlob::find_by_id(&db, 2), Ok(updated));
    assert_eq!(AttachmentBlob::find_by_id(&db, 1).unwrap().file_name, "a.mp4");
}

#[test]
fn blob_update_sets_a_content_type() {
    let mut db = filled(&["a"]);
    let changes = UpdateAttachmentBlob {
        file_name: None,
        content_type: Some(Some("video/webm".to_string())),
        service_name: Some("minio".to_string()),
    };
    let updated = AttachmentBlob::update(&mut db, 1, &changes).unwrap();
    assert_eq!(updated.content_type, Some("video/webm".to_string()));
    assert_eq!(updated.service_name, "minio");
    assert_eq!(updated.file_name, "a.mp4");
}

#[test]
fn blob_update_with_nothing_named_changes_nothing() {
    let mut db = filled(&["a"]);
    let before = AttachmentBlob::find_by_id(&db, 1).unwrap();
    let changes = UpdateAttachmentBlob { file_name: None, content_type: None, service_name: None };
    assert_eq!(AttachmentBlob::update(&mut db, 1, &changes), Ok(before.clone()));
    assert_eq!(changes.apply(&before), before);
}

#[test]
fn blob_update_misses() {
    let mut db = filled(&["a"]);
    let changes = UpdateAttachmentBlob { file_name: Some("x".to_string()), content_type: None, service_name: None };
    assert_eq!(AttachmentBlob::update(&mut db, 2, &changes), Err(ServiceError::NotFound));
    assert_eq!(db.blobs()[0].file_name, "a.mp4");
}

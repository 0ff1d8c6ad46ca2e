use video_share::error::ServiceError;
use video_share::pagination::{
    clamp_page_size, count_pages, page_offset, page_range, PaginationParams, PaginationResult,
};

#[test]
fn page_size_below_one_counts_as_one() {
    assert_eq!(clamp_page_size(0), 1);
    assert_eq!(clamp_page_size(-7), 1);
    assert_eq!(clamp_page_size(i64::MIN), 1);
    assert_eq!(clamp_page_size(1), 1);
    assert_eq!(clamp_page_size(25), 25);
    assert_eq!(clamp_page_size(i64::MAX), i64::MAX);
}

#[test]
fn page_count_is_the_quotient_rounded_up() {
    assert_eq!(count_pages(0, 10), 0);
    assert_eq!(count_pages(1, 10), 1);
    assert_eq!(count_pages(10, 10), 1);
    assert_eq!(count_pages(11, 10), 2);
    assert_eq!(count_pages(20, 10), 2);
    assert_eq!(count_pages(21, 10), 3);
    assert_eq!(count_pages(7, 1), 7);
    assert_eq!(count_pages(i64::MAX, 1), i64::MAX);
    assert_eq!(count_pages(i64::MAX, i64::MAX), 1);
    assert_eq!(count_pages(i64::MAX, 2), i64::MAX / 2 + 1);
}

#[test]
fn page_count_uses_the_clamped_size() {
    assert_eq!(count_pages(5, 0), 5);
    assert_eq!(count_pages(5, -3), 5);
    assert_eq!(count_pages(0, 0), 0);
}

#[test]
fn offset_is_page_times_size() {
    assert_eq!(page_offset(0, 10), Ok(0));
    assert_eq!(page_offset(3, 10), Ok(30));
    assert_eq!(page_offset(3, 0), Ok(3));
    assert_eq!(page_offset(3, -5), Ok(3));
    assert_eq!(page_offset(i64::MAX, 1), Ok(i64::MAX));
}

#[test]
fn offset_refuses_a_negative_page() {
    assert_eq!(page_offset(-1, 10), Err(ServiceError::ValidationError));
    assert_eq!(page_offset(i64::MIN, 1), Err(ServiceError::ValidationError));
}

#[test]
fn offset_beyond_i64_skips_every_row() {
    assert_eq!(page_offset(i64::MAX, 2), Ok(i64::MAX));
    assert_eq!(page_offset(1 << 32, 1 << 31), Ok(i64::MAX));
    assert_eq!(page_offset(i64::MAX, i64::MAX), Ok(i64::MAX));
    assert_eq!(page_offset((1 << 31) - 1, 1 << 32), Ok(((1i64 << 31) - 1) << 32));
}

#[test]
fn offset_leads_to_where_the_page_begins() {
    for total in [0usize, 1, 7, 23] {
        for page in [0i64, 1, 2, 5, i64::MAX] {
            for size in [-1i64, 1, 5, i64::MAX] {
                let offset = page_offset(page, size).unwrap();
                let (start, _) = page_range(total, page, size).unwrap();
                assert_eq!((offset as u64).min(total as u64) as usize, start);
            }
        }
    }
}

#[test]
fn range_of_a_page_lies_inside_the_listing() {
    assert_eq!(page_range(25, 0, 10), Ok((0, 10)));
    assert_eq!(page_range(25, 1, 10), Ok((10, 20)));
    assert_eq!(page_range(25, 2, 10), Ok((20, 25)));
    assert_eq!(page_range(25, 3, 10), Ok((25, 25)));
    assert_eq!(page_range(25, i64::MAX, i64::MAX), Ok((25, 25)));
    assert_eq!(page_range(0, 0, 10), Ok((0, 0)));
    assert_eq!(page_range(3, 1, 0), Ok((1, 2)));
    assert_eq!(page_range(3, 0, i64::MAX), Ok((0, 3)));
}

#[test]
fn range_refuses_a_negative_page() {
    assert_eq!(page_range(25, -1, 10), Err(ServiceError::ValidationError));
}

#[test]
fn assembled_listing_carries_the_counts() {
    let listing: PaginationResult<u8> = PaginationResult::assemble(vec![4, 5, 6], 23, 2, 10);
    assert_eq!(listing.items, vec![4, 5, 6]);
    assert_eq!(listing.total_items, 23);
    assert_eq!(listing.page, 2);
    assert_eq!(listing.page_size, 10);
    assert_eq!(listing.num_pages, 3);
}

#[test]
fn assembled_listing_clamps_the_size() {
    let listing: PaginationResult<u8> = PaginationResult::assemble(vec![9], 4, 0, -2);
    assert_eq!(listing.page_size, 1);
    assert_eq!(listing.num_pages, 4);
}

#[test]
fn pagination_params_are_plain_values() {
    let params = PaginationParams { page: 2, page_size: 50 };
    let copy = params;
    assert_eq!(params, copy);
    assert_eq!(page_offset(params.page, params.page_size), Ok(100));
}

#[test]
fn every_item_stands_on_exactly_one_page() {
    for total in 0..30usize {
        for size in 1..8i64 {
            let mut seen: Vec<usize> = Vec::new();
            for page in 0..count_pages(total as i64, size) + 2 {
                let (start, end) = page_range(total, page, size).unwrap();
                assert!(start <= end && end <= total);
                assert_eq!((end - start) as i64, size.min((total as i64 - page * size).max(0)));
                seen.extend(start..end);
            }
            assert_eq!(seen, (0..total).collect::<Vec<usize>>());
        }
    }
}

#[test]
fn item_is_found_on_its_page() {
    let total = 23usize;
    let size = 5i64;
    for i in 0..total {
        let (start, end) = page_range(total, i as i64 / size, size).unwrap();
        assert!(start + (i % 5) < end);
        assert_eq!(start + (i % 5), i);
    }
}

#[test]
fn page_count_is_the_least_that_holds_all() {
    for total in 0..60i64 {
        for size in 1..9i64 {
            let pages = count_pages(total, size);
            assert!(pages * size >= total);
            assert!(pages == 0 || (pages - 1) * size < total);
            assert_eq!(pages == 0, total == 0);
        }
    }
}

#[test]
fn pages_beyond_the_last_are_empty() {
    let pages = count_pages(23, 5);
    assert_eq!(pages, 5);
    assert_eq!(page_range(23, pages - 1, 5), Ok((20, 23)));
    assert_eq!(page_range(23, pages, 5), Ok((23, 23)));
}

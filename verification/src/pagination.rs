use vstd::prelude::*;
use crate::error::ServiceError;

verus! {

/// The query parameters of a page request. `page` counts from 0.
#[derive(Clone, Copy, Debug, PartialEq, Eq, Structural)]
pub struct PaginationParams {
    pub page: i64,
    pub page_size: i64,
}

/// One page of a listing, with the size of the whole listing.
#[derive(Debug)]
pub struct PaginationResult<T> {
    pub items: Vec<T>,
    pub total_items: i64,
    /// 0-based index
    pub page: i64,
    pub page_size: i64,
    pub num_pages: i64,
}

/// The page size that is used for a requested one: never below 1.
pub open spec fn effective_size(page_size: int) -> int {
    if page_size < 1 {
        1
    } else {
        page_size
    }
}

/// The number of pages of `size` items that hold `total` items: the
/// quotient rounded up.
pub open spec fn pages_needed(total: int, size: int) -> int
    recommends
        total >= 0,
        size >= 1,
{
    (total + size - 1) / size
}

/// Where page `page` begins in a listing of `total` items.
pub open spec fn page_start(total: int, page: int, size: int) -> int
    recommends
        total >= 0,
        page >= 0,
        size >= 1,
{
    if page * size < total {
        page * size
    } else {
        total
    }
}

/// Where page `page` ends in a listing of `total` items.
pub open spec fn page_end(total: int, page: int, size: int) -> int
    recommends
        total >= 0,
        page >= 0,
        size >= 1,
{
    if page * size + size < total {
        page * size + size
    } else {
        total
    }
}

/// The items of a listing that no earlier page has shown.
pub open spec fn remaining(total: int, page: int, size: int) -> int {
    if page * size < total {
        total - page * size
    } else {
        0
    }
}

/// The items of `rows` that stand on page `page`.
pub open spec fn page_of<T>(rows: Seq<T>, page: int, size: int) -> Seq<T>
    recommends
        page >= 0,
        size >= 1,
{
    rows.subrange(page_start(rows.len() as int, page, size), page_end(rows.len() as int, page, size))
}

/// A page begins no later than it ends, and both lie inside the listing.
pub proof fn lemma_page_bounds(total: int, page: int, size: int)
    requires
        total >= 0,
        page >= 0,
        size >= 1,
    ensures
        0 <= page_start(total, page, size) <= page_end(total, page, size) <= total,
        page_start(total, page, size) == total - remaining(total, page, size),
{
    assert(page * size >= 0) by (nonlinear_arith)
        requires
            page >= 0,
            size >= 1,
    ;
}

/// A page holds as many items as its size allows and the listing has left.
pub proof fn lemma_page_len(total: int, page: int, size: int)
    requires
        total >= 0,
        page >= 0,
        size >= 1,
    ensures
        page_end(total, page, size) - page_start(total, page, size) == (if size < remaining(
            total,
            page,
            size,
        ) {
            size
        } else {
            remaining(total, page, size)
        }),
{
    lemma_page_bounds(total, page, size);
}

/// `pages_needed` is the least number of pages that hold every item.
pub proof fn lemma_pages_needed_is_least(total: int, size: int)
    requires
        total >= 0,
        size >= 1,
    ensures
        pages_needed(total, size) >= 0,
        pages_needed(total, size) * size >= total,
        (pages_needed(total, size) - 1) * size < total || total == 0,
        total == 0 <==> pages_needed(total, size) == 0,
        pages_needed(total, size) == total / size + (if total % size != 0 {
            1int
        } else {
            0int
        }),
{
    let n = pages_needed(total, size);
    let q = total / size;
    let r = total % size;
    assert(total == q * size + r && 0 <= r < size && q >= 0) by (nonlinear_arith)
        requires
            total >= 0,
            size >= 1,
            q == total / size,
            r == total % size,
    ;
    if r == 0 {
        assert((q * size + size - 1) / size == q) by (nonlinear_arith)
            requires
                size >= 1,
                q >= 0,
        ;
    } else {
        assert((q * size + r + size - 1) / size == q + 1) by (nonlinear_arith)
            requires
                size >= 1,
                q >= 0,
                0 < r < size,
        ;
    }
    assert(n == q + (if r != 0 {
        1int
    } else {
        0int
    }));
    assert(n * size >= total && ((n - 1) * size < total || total == 0) && (total == 0 <==> n == 0))
        by (nonlinear_arith)
        requires
            total == q * size + r,
            0 <= r < size,
            q >= 0,
            size >= 1,
            n == q + (if r != 0 {
                1int
            } else {
                0int
            }),
    ;
}

/// Every page from `pages_needed` on is empty, and every earlier one holds
/// an item.
pub proof fn lemma_pages_cover(total: int, page: int, size: int)
    requires
        total >= 0,
        page >= 0,
        size >= 1,
    ensures
        page < pages_needed(total, size) <==> remaining(total, page, size) > 0,
{
    lemma_pages_needed_is_least(total, size);
    let n = pages_needed(total, size);
    if page < n {
        assert(page * size <= (n - 1) * size) by (nonlinear_arith)
            requires
                page <= n - 1,
                size >= 1,
        ;
    } else {
        assert(page * size >= n * size) by (nonlinear_arith)
            requires
                page >= n,
                size >= 1,
        ;
    }
}

/// Every item stands on one page: item `i` of a listing is found on page
/// `i / size`, at place `i % size`.
pub proof fn lemma_item_on_its_page<T>(rows: Seq<T>, size: int, i: int)
    requires
        size >= 1,
        0 <= i < rows.len(),
    ensures
        0 <= i / size,
        0 <= i % size < page_of(rows, i / size, size).len(),
        page_of(rows, i / size, size)[i % size] == rows[i],
{
    let page = i / size;
    let place = i % size;
    assert(i == page * size + place && 0 <= place < size && page >= 0) by (nonlinear_arith)
        requires
            size >= 1,
            i >= 0,
            page == i / size,
            place == i % size,
    ;
    lemma_page_bounds(rows.len() as int, page, size);
}

/// Clamps a requested page size to at least 1.
pub fn clamp_page_size(page_size: i64) -> (size: i64)
    ensures
        size == effective_size(page_size as int),
{
    if page_size < 1 {
        1
    } else {
        page_size
    }
}

/// The number of pages of a listing of `total_items` items.
pub fn count_pages(total_items: i64, page_size: i64) -> (pages: i64)
    requires
        total_items >= 0,
    ensures
        pages == pages_needed(total_items as int, effective_size(page_size as int)),
{
    let size: i64 = clamp_page_size(page_size);
    proof {
        lemma_pages_needed_is_least(total_items as int, size as int);
        assert(0 <= total_items as int / size as int <= total_items as int) by (nonlinear_arith)
            requires
                total_items >= 0,
                size >= 1,
        ;
    }
    let whole: i64 = total_items / size;
    let rest: i64 = total_items % size;
    if rest != 0 {
        assert(whole < total_items) by (nonlinear_arith)
            requires
                whole == total_items as int / size as int,
                rest == total_items as int % size as int,
                rest != 0,
                total_items >= 0,
                size >= 1,
        ;
        whole + 1
    } else {
        whole
    }
}

/// The number of rows that a query skips before page `page`: the product of
/// the page and the effective page size, or the largest `i64` where the
/// product is larger still. No table has more rows than that, so the page
/// is empty then, as it should be. A negative page is a malformed request.
pub open spec fn offset_of(page: int, page_size: int) -> Result<i64, ServiceError> {
    if page < 0 {
        Err(ServiceError::ValidationError)
    } else if page * effective_size(page_size) > i64::MAX {
        Ok(i64::MAX)
    } else {
        Ok((page * effective_size(page_size)) as i64)
    }
}

/// Skipping `offset_of` rows of a listing leads to where the page begins.
pub proof fn lemma_offset_is_page_start(total: int, page: int, page_size: int)
    requires
        0 <= total <= i64::MAX,
        page >= 0,
    ensures
        offset_of(page, page_size) matches Ok(offset) && (if offset < total {
            offset as int
        } else {
            total
        }) == page_start(total, page, effective_size(page_size)),
{
}

pub fn page_offset(page: i64, page_size: i64) -> (offset: Result<i64, ServiceError>)
    ensures
        offset == offset_of(page as int, page_size as int),
{
    if page < 0 {
        return Err(ServiceError::ValidationError);
    }
    let size: i64 = clamp_page_size(page_size);
    assert(0 <= page as int * size as int <= i64::MAX as int * i64::MAX as int) by (nonlinear_arith)
        requires
            0 <= page <= i64::MAX,
            1 <= size <= i64::MAX,
    ;
    let product: i128 = (page as i128) * (size as i128);
    if product > i64::MAX as i128 {
        Ok(i64::MAX)
    } else {
        Ok(product as i64)
    }
}

/// The bounds of page `page` in a listing of `total` items, or
/// `ValidationError` for a negative page.
pub open spec fn range_of(total: int, page: int, page_size: int) -> Result<(usize, usize), ServiceError> {
    if page < 0 {
        Err(ServiceError::ValidationError)
    } else {
        Ok(
            (
                page_start(total, page, effective_size(page_size)) as usize,
                page_end(total, page, effective_size(page_size)) as usize,
            ),
        )
    }
}

pub fn page_range(total: usize, page: i64, page_size: i64) -> (range: Result<(usize, usize), ServiceError>)
    ensures
        range == range_of(total as int, page as int, page_size as int),
        range matches Ok((start, end)) ==> start <= end <= total,
{
    if page < 0 {
        return Err(ServiceError::ValidationError);
    }
    let size: i64 = clamp_page_size(page_size);
    proof {
        lemma_page_bounds(total as int, page as int, size as int);
    }
    assert(0 <= page as int * size as int <= i64::MAX as int * i64::MAX as int) by (nonlinear_arith)
        requires
            0 <= page <= i64::MAX,
            1 <= size <= i64::MAX,
    ;
    let first: i128 = (page as i128) * (size as i128);
    let past: i128 = first + (size as i128);
    let start: usize = if first < total as i128 {
        first as usize
    } else {
        total
    };
    let end: usize = if past < total as i128 {
        past as usize
    } else {
        total
    };
    Ok((start, end))
}

impl<T> PaginationResult<T> {
    /// Wraps the items of one page with the counts of the whole listing.
    pub fn assemble(items: Vec<T>, total_items: i64, page: i64, page_size: i64) -> (result: Self)
        requires
            total_items >= 0,
        ensures
            result.items == items,
            result.total_items == total_items,
            result.page == page,
            result.page_size == effective_size(page_size as int),
            result.num_pages == pages_needed(total_items as int, effective_size(page_size as int)),
    {
        let size: i64 = clamp_page_size(page_size);
        let num_pages: i64 = count_pages(total_items, size);
        PaginationResult { items, total_items, page, page_size: size, num_pages }
    }
}

} // verus!

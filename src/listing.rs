use vstd::prelude::*;

verus! {

/// Page size of the structure listing when a request names none.
pub const LISTING_PAGE_SIZE: i64 = 16;

/// Largest page size of the structure listing.
pub const LISTING_MAX_PAGE_SIZE: i64 = 64;

/// Page and size of a listing request, both optional.
pub struct PaginationParams {
    pub page: Option<i64>,
    pub size: Option<i64>,
}

/// Where a page stands in a listing: the page, its size and the number of
/// pages.
pub struct Pagination {
    pub page: i64,
    pub size: i64,
    pub total: i64,
}

/// The page a request asks for: the given one, else 1, and never below 1.
pub open spec fn page_of(page: Option<i64>) -> int {
    let p = match page {
        Some(p) => p as int,
        None => 1,
    };
    if p < 1 { 1 } else { p }
}

/// The page size a request asks for: the given one, else 16, held within
/// 1 to 64.
pub open spec fn size_of(size: Option<i64>) -> int {
    let s = match size {
        Some(s) => s as int,
        None => LISTING_PAGE_SIZE as int,
    };
    if s < 1 {
        1
    } else if s > LISTING_MAX_PAGE_SIZE {
        LISTING_MAX_PAGE_SIZE as int
    } else {
        s
    }
}

impl PaginationParams {
    /// The page and page size to serve.
    pub fn window(&self) -> (r: (i64, i64))
        ensures
            r.0 == page_of(self.page),
            r.1 == size_of(self.size),
    {
        let page = match self.page {
            Some(p) => if p < 1 { 1 } else { p },
            None => 1,
        };
        let size = match self.size {
            Some(s) => if s < 1 {
                1
            } else if s > LISTING_MAX_PAGE_SIZE {
                LISTING_MAX_PAGE_SIZE
            } else {
                s
            },
            None => LISTING_PAGE_SIZE,
        };
        (page, size)
    }
}

/// Number of rows before `page` when pages hold `size` rows, or `None` when
/// that does not fit in an `i64`.
pub fn page_offset(page: i64, size: i64) -> (r: Option<i64>)
    requires
        page >= 1,
        1 <= size <= LISTING_MAX_PAGE_SIZE,
    ensures
        r is Some <==> (page - 1) * size <= i64::MAX,
        r is Some ==> r->0 == (page - 1) * size,
{
    let before: i64 = page - 1;
    if before > i64::MAX / size {
        proof {
            assert((before + 1) * size <= before * size + size) by (nonlinear_arith)
                requires size >= 1;
            assert(before * size > i64::MAX) by (nonlinear_arith)
                requires before > i64::MAX / size, size >= 1;
        }
        None
    } else {
        proof {
            assert(before * size <= i64::MAX) by (nonlinear_arith)
                requires before <= i64::MAX / size, size >= 1, before >= 0;
        }
        Some(before * size)
    }
}

/// Number of pages of `size` rows that `total` rows fill.
pub fn page_count(total: i64, size: i64) -> (r: i64)
    requires
        total >= 0,
        1 <= size <= LISTING_MAX_PAGE_SIZE,
    ensures
        r == (total + size - 1) as int / size as int,
{
    let q = total / size;
    let m = total % size;
    proof {
        assert(total == q * size + m) by (nonlinear_arith)
            requires q == total / size, m == total % size, size >= 1;
        assert((total + size - 1) as int / size as int == if m == 0 { q as int } else { q + 1 }) by (nonlinear_arith)
            requires total == q * size + m, 0 <= m < size, size >= 1, q >= 0;
        assert(q * size >= q) by (nonlinear_arith)
            requires size >= 1, q >= 0;
    }
    if m == 0 {
        q
    } else {
        q + 1
    }
}

} // verus!

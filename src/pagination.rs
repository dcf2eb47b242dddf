use vstd::prelude::*;

verus! {

/// Page used when a request names none.
pub const DEFAULT_PAGE: usize = 1;

/// Page size used when a request names none.
pub const DEFAULT_PAGE_SIZE: usize = 24;

/// Where a page stands in a listing.
pub struct Pagination {
    pub page: usize,
    pub size: usize,
    pub total: usize,
}

/// Page and size as a request gives them, both optional.
pub struct PaginationParams {
    pub page: Option<usize>,
    pub size: Option<usize>,
}

impl PaginationParams {
    /// The requested page, else `DEFAULT_PAGE`.
    pub fn get_page(&self) -> (r: usize)
        ensures
            r == (match self.page {
                Some(p) => p,
                None => DEFAULT_PAGE,
            }),
    {
        match self.page {
            Some(p) => p,
            None => DEFAULT_PAGE,
        }
    }

    /// The requested size, else `DEFAULT_PAGE_SIZE`.
    pub fn get_size(&self) -> (r: usize)
        ensures
            r == (match self.size {
                Some(s) => s,
                None => DEFAULT_PAGE_SIZE,
            }),
    {
        match self.size {
            Some(s) => s,
            None => DEFAULT_PAGE_SIZE,
        }
    }
}

} // verus!

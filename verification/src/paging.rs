//! List-request paging: the page parameters a list endpoint takes and the
//! envelope it answers with.

use vstd::prelude::*;

verus! {

/// The paging parameters of a list request; either may be absent.
#[derive(Clone, Copy, Debug)]
pub struct ListParamsReq {
    pub page: Option<u64>,
    pub page_size: Option<u64>,
}

impl Default for ListParamsReq {
    /// The first page, twenty rows.
    fn default() -> (r: Self)
        ensures
            r.page == Some(1u64),
            r.page_size == Some(20u64),
    {
        Self { page: Some(1), page_size: Some(20) }
    }
}

impl ListParamsReq {
    /// The page and page size a query uses: the given values, with the
    /// absent ones replaced by the defaults.
    pub fn effective(&self) -> (r: (u64, u64))
        ensures
            r.0 == match self.page {
                Some(p) => p,
                None => 1u64,
            },
            r.1 == match self.page_size {
                Some(p) => p,
                None => 20u64,
            },
    {
        let page = match self.page {
            Some(p) => p,
            None => 1,
        };
        let page_size = match self.page_size {
            Some(p) => p,
            None => 20,
        };
        (page, page_size)
    }
}

/// One page of a listing: the rows, the page they form, and how many rows
/// the whole listing has.
#[derive(Clone, Debug)]
pub struct PagingResponse<T> {
    pub list: Vec<T>,
    pub page: u64,
    pub total: u64,
}

} // verus!

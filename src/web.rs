//! Pagination records of the dashboard's listing endpoints.

use vstd::prelude::*;

verus! {

/// One page of a listing.
#[derive(Debug)]
pub struct PaginatedResponse<T> {
    pub items: Vec<T>,
    pub total_items: i64,
    pub page: u32,
    pub page_size: u32,
}

/// The page asked for, and an optional job to filter by.
#[derive(Debug)]
pub struct PaginationParams {
    pub page: u32,
    pub page_size: u32,
    pub job_id: Option<i64>,
}

/// The first page.
pub fn default_page() -> (r: u32)
    ensures
        r == 1,
{
    1
}

/// Fifty items per page.
pub fn default_page_size() -> (r: u32)
    ensures
        r == 50,
{
    50
}

} // verus!

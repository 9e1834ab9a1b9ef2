//! Shared domain types: pagination, sort order, and the enumerations
//! used across projects, files and compilation jobs.

use vstd::prelude::*;

verus! {

/// Sort order for listing endpoints.
#[derive(Clone, Copy, Debug, PartialEq, Eq, Structural)]
pub enum SortOrder {
    Asc,
    Desc,
}

impl Default for SortOrder {
    fn default() -> (r: Self)
        ensures
            r == SortOrder::Desc,
    {
        SortOrder::Desc
    }
}

/// Content type for files.
#[derive(Clone, Copy, Debug, PartialEq, Eq, Structural)]
pub enum ContentType {
    Latex,
    Bibliography,
    Image,
    Other,
}

impl Default for ContentType {
    fn default() -> (r: Self)
        ensures
            r == ContentType::Latex,
    {
        ContentType::Latex
    }
}

/// File storage strategy.
#[derive(Clone, Copy, Debug, PartialEq, Eq, Structural)]
pub enum StorageStrategy {
    Inline,
    Toast,
    External,
}

impl Default for StorageStrategy {
    fn default() -> (r: Self)
        ensures
            r == StorageStrategy::Toast,
    {
        StorageStrategy::Toast
    }
}

/// Role of a user within a project.
#[derive(Clone, Copy, Debug, PartialEq, Eq, Structural)]
pub enum UserRole {
    Owner,
    Maintainer,
    Collaborator,
    Viewer,
}

/// Status of a compilation job.
#[derive(Clone, Copy, Debug, PartialEq, Eq, Structural)]
pub enum CompilationStatus {
    Never,
    Pending,
    Running,
    Success,
    Error,
    Cancelled,
}

impl Default for CompilationStatus {
    fn default() -> (r: Self)
        ensures
            r == CompilationStatus::Never,
    {
        CompilationStatus::Never
    }
}

/// LaTeX engine used to compile a project.
#[derive(Clone, Copy, Debug, PartialEq, Eq, Structural)]
pub enum LatexEngine {
    Pdflatex,
    Xelatex,
    Lualatex,
}

impl Default for LatexEngine {
    fn default() -> (r: Self)
        ensures
            r == LatexEngine::Pdflatex,
    {
        LatexEngine::Pdflatex
    }
}

/// Error information carried in API responses.
#[derive(Clone, Debug)]
pub struct ErrorInfo {
    pub message: String,
    pub code: Option<String>,
}

/// Pagination parameters for listing endpoints.
#[derive(Clone, Debug)]
pub struct PaginationParams {
    pub page: Option<u32>,
    pub limit: Option<u32>,
    pub offset: Option<u32>,
    pub sort_by: Option<String>,
    pub sort_order: Option<SortOrder>,
}

/// The page requested, defaulting to the first page.
pub open spec fn spec_page(p: PaginationParams) -> u32 {
    match p.page {
        Some(n) => n,
        None => 1u32,
    }
}

/// The page size requested, defaulting to 20 and capped at 100 rows.
pub open spec fn spec_limit(p: PaginationParams) -> u32 {
    let raw = match p.limit {
        Some(n) => n,
        None => 20u32,
    };
    if raw < 100 {
        raw
    } else {
        100u32
    }
}

/// The row offset: either given directly, or derived from page and limit.
pub open spec fn spec_offset(p: PaginationParams) -> int {
    match p.offset {
        Some(n) => n as int,
        None => (spec_page(p) - 1) * spec_limit(p),
    }
}

impl PaginationParams {
    pub fn page(&self) -> (r: u32)
        ensures
            r == spec_page(*self),
    {
        match self.page {
            Some(n) => n,
            None => 1,
        }
    }

    pub fn limit(&self) -> (r: u32)
        ensures
            r == spec_limit(*self),
    {
        let raw: u32 = match self.limit {
            Some(n) => n,
            None => 20,
        };
        if raw < 100 {
            raw
        } else {
            100
        }
    }

    pub fn offset(&self) -> (r: u32)
        requires
            self.offset is None ==> spec_page(*self) >= 1,
            self.offset is None ==> (spec_page(*self) - 1) * spec_limit(*self) <= u32::MAX,
        ensures
            r == spec_offset(*self),
    {
        match self.offset {
            Some(n) => n,
            None => (self.page() - 1) * self.limit(),
        }
    }

    pub fn sort_by(&self) -> (r: String)
        ensures
            match self.sort_by {
                Some(ref s) => r@ == s@,
                None => r@ == "created_at"@,
            },
    {
        match &self.sort_by {
            Some(s) => s.clone(),
            None => "created_at".to_owned(),
        }
    }

    pub fn sort_order(&self) -> (r: SortOrder)
        ensures
            match self.sort_order {
                Some(o) => r == o,
                None => r == SortOrder::Desc,
            },
    {
        match self.sort_order {
            Some(o) => o,
            None => SortOrder::Desc,
        }
    }
}

/// Pagination information returned beside a page of rows.
#[derive(Clone, Debug)]
pub struct PaginationInfo {
    pub page: u32,
    pub limit: u32,
    pub total: u64,
    pub total_pages: u32,
    pub has_next: bool,
    pub has_prev: bool,
}

/// Number of pages needed for `total` rows at `limit` rows per page,
/// saturated to `u32::MAX`; a zero limit of a non-empty listing also
/// saturates.
pub open spec fn spec_total_pages(total: u64, limit: u32) -> u32 {
    if limit == 0 {
        if total == 0 {
            0u32
        } else {
            u32::MAX
        }
    } else {
        let pages = (total + limit - 1) / (limit as int);
        if pages <= u32::MAX {
            pages as u32
        } else {
            u32::MAX
        }
    }
}

/// A page of rows with its pagination information.
#[derive(Clone, Debug)]
pub struct PaginatedResponse<T> {
    pub data: Vec<T>,
    pub pagination: PaginationInfo,
}

impl<T> PaginatedResponse<T> {
    pub fn new(data: Vec<T>, params: &PaginationParams, total: u64) -> (r: Self)
        ensures
            r.data == data,
            r.pagination.page == spec_page(*params),
            r.pagination.limit == spec_limit(*params),
            r.pagination.total == total,
            r.pagination.total_pages == spec_total_pages(total, spec_limit(*params)),
            r.pagination.has_next == (spec_page(*params) < spec_total_pages(
                total,
                spec_limit(*params),
            )),
            r.pagination.has_prev == (spec_page(*params) > 1),
    {
        let page = params.page();
        let limit = params.limit();
        let total_pages: u32 = if limit == 0 {
            if total == 0 {
                0
            } else {
                u32::MAX
            }
        } else {
            let whole: u64 = total / (limit as u64);
            let rem: u64 = total % (limit as u64);
            proof {
                assert(rem != 0 ==> whole < total) by (nonlinear_arith)
                    requires
                        limit > 0,
                        whole as int == total as int / (limit as int),
                        rem as int == total as int % (limit as int),
                ;
            }
            let pages: u64 = if rem == 0 {
                whole
            } else {
                whole + 1
            };
            proof {
                assert(pages as int == (total + limit - 1) / (limit as int)) by (nonlinear_arith)
                    requires
                        limit > 0,
                        whole as int == total as int / (limit as int),
                        rem as int == total as int % (limit as int),
                        pages as int == if rem as int == 0 {
                            whole as int
                        } else {
                            whole as int + 1
                        },
                ;
            }
            if pages <= u32::MAX as u64 {
                pages as u32
            } else {
                u32::MAX
            }
        };
        PaginatedResponse {
            data,
            pagination: PaginationInfo {
                page,
                limit,
                total,
                total_pages,
                has_next: page < total_pages,
                has_prev: page > 1,
            },
        }
    }
}

} // verus!

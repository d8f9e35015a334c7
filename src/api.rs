//! Read-only queries over the trading history: validation and paging of the
//! closed-position listing, and the shape of the answers and errors.
use vstd::prelude::*;

use crate::position::ClosedPosition;

verus! {

/// Largest page the listing serves.
pub const MAX_PAGE_LIMIT: usize = 20;

/// Paging and date filter of the closed-position listing. Pages count from
/// one; dates are exit times in milliseconds since the Unix epoch, both
/// ends included.
#[derive(Clone, Copy, Debug, PartialEq, Eq, Structural)]
pub struct PaginationParams {
    pub page: usize,
    pub limit: usize,
    pub from_date: Option<i64>,
    pub to_date: Option<i64>,
}

/// Page served when none is asked for.
pub fn default_page() -> (r: usize)
    ensures
        r == 1,
{
    1
}

/// Page size served when none is asked for.
pub fn default_limit() -> (r: usize)
    ensures
        r == MAX_PAGE_LIMIT,
{
    MAX_PAGE_LIMIT
}

#[derive(Debug)]
pub struct ClosedPositionsResponse {
    pub positions: Vec<ClosedPosition>,
    /// Number of records that pass the date filter.
    pub total: usize,
    pub page: usize,
    pub limit: usize,
}

#[derive(Debug)]
pub struct ErrorResponse {
    pub error: String,
}

#[derive(Debug)]
pub struct TradingCapitalResponse {
    pub capital: String,
}

#[derive(Debug)]
pub enum ApiError {
    RedisError(String),
    NotFound(String),
    InvalidInput(String),
}

impl ApiError {
    /// HTTP status of the error.
    pub fn status_code(&self) -> (r: u16)
        ensures
            self is RedisError ==> r == 500,
            self is NotFound ==> r == 404,
            self is InvalidInput ==> r == 400,
    {
        match self {
            ApiError::RedisError(_) => 500,
            ApiError::NotFound(_) => 404,
            ApiError::InvalidInput(_) => 400,
        }
    }

    /// The error as the body sent to the client.
    pub fn to_response(self) -> (r: ErrorResponse)
        ensures
            r.error@ == (match self {
                ApiError::RedisError(m) => m@,
                ApiError::NotFound(m) => m@,
                ApiError::InvalidInput(m) => m@,
            }),
    {
        match self {
            ApiError::RedisError(m) => ErrorResponse { error: m },
            ApiError::NotFound(m) => ErrorResponse { error: m },
            ApiError::InvalidInput(m) => ErrorResponse { error: m },
        }
    }
}

pub open spec fn valid_paging(p: PaginationParams) -> bool {
    p.page >= 1 && 1 <= p.limit <= MAX_PAGE_LIMIT
}

pub open spec fn within_dates(r: ClosedPosition, p: PaginationParams) -> bool {
    (p.from_date is None || r.exit_time >= p.from_date->0) && (p.to_date is None || r.exit_time <= p.to_date->0)
}

/// The first `n` records that pass the date filter, in order.
pub open spec fn filtered(history: Seq<ClosedPosition>, p: PaginationParams, n: int) -> Seq<ClosedPosition>
    decreases n,
{
    if n <= 0 || n > history.len() {
        Seq::empty()
    } else if within_dates(history[n - 1], p) {
        filtered(history, p, n - 1).push(history[n - 1])
    } else {
        filtered(history, p, n - 1)
    }
}

proof fn lemma_filtered_len(history: Seq<ClosedPosition>, p: PaginationParams, n: int)
    requires
        0 <= n <= history.len(),
    ensures
        filtered(history, p, n).len() <= n,
    decreases n,
{
    if n > 0 {
        lemma_filtered_len(history, p, n - 1);
    }
}

/// The page `p.page` of `p.limit` records among those that pass the date
/// filter.
pub open spec fn page_spec(history: Seq<ClosedPosition>, p: PaginationParams) -> Seq<ClosedPosition> {
    let all = filtered(history, p, history.len() as int);
    let start = (p.page - 1) * p.limit;
    let end = start + p.limit;
    if start >= all.len() {
        Seq::empty()
    } else {
        all.subrange(start, if end < all.len() { end } else { all.len() as int })
    }
}

/// Page of the closed-position history (newest first, as stored). A page
/// of zero, or a limit of zero or above the largest page, is refused.
pub fn get_closed_positions(history: &Vec<ClosedPosition>, params: PaginationParams) -> (r: Result<ClosedPositionsResponse, ApiError>)
    ensures
        !valid_paging(params) ==> (r matches Err(e) && e is InvalidInput),
        valid_paging(params) ==> (r matches Ok(resp) && resp.positions@ == page_spec(history@, params)
            && resp.total == filtered(history@, params, history@.len() as int).len() && resp.page == params.page
            && resp.limit == params.limit),
{
    if params.page == 0 {
        return Err(ApiError::InvalidInput("Page must be greater than 0".to_owned()));
    }
    if params.limit == 0 || params.limit > MAX_PAGE_LIMIT {
        return Err(ApiError::InvalidInput("Limit must be between 1 and 20".to_owned()));
    }
    let mut all: Vec<ClosedPosition> = Vec::new();
    let mut i: usize = 0;
    while i < history.len()
        invariant
            i <= history@.len(),
            all@ == filtered(history@, params, i as int),
        decreases history@.len() - i,
    {
        let rec = history[i];
        let keep = match params.from_date {
            Some(f) => rec.exit_time >= f,
            None => true,
        } && match params.to_date {
            Some(t) => rec.exit_time <= t,
            None => true,
        };
        if keep {
            all.push(rec);
        }
        i = i + 1;
    }
    proof {
        lemma_filtered_len(history@, params, history@.len() as int);
    }
    let total = all.len();
    let mut positions: Vec<ClosedPosition> = Vec::new();
    let skip: usize = if (params.page - 1) <= total / params.limit {
        proof {
            let q = total / params.limit;
            assert((params.page - 1) * params.limit <= q * params.limit) by (nonlinear_arith)
                requires (params.page - 1) <= q, params.limit >= 1, params.page >= 1;
            assert(q * params.limit <= total) by (nonlinear_arith)
                requires q == total / params.limit, params.limit >= 1, total >= 0;
        }
        (params.page - 1) * params.limit
    } else {
        total
    };
    proof {
        let start = (params.page - 1) * params.limit;
        if (params.page - 1) > total / params.limit {
            assert(start >= total) by (nonlinear_arith)
                requires
                    (params.page - 1) > total / params.limit,
                    params.limit >= 1,
                    start == (params.page - 1) * params.limit,
                    total >= 0;
        } else {
            assert(start <= total) by (nonlinear_arith)
                requires
                    (params.page - 1) <= total / params.limit,
                    params.limit >= 1,
                    start == (params.page - 1) * params.limit,
                    total >= 0;
        }
    }
    let mut k: usize = skip;
    while k < total && k - skip < params.limit
        invariant
            skip <= k <= total,
            total == all@.len(),
            k - skip <= params.limit,
            positions@ == all@.subrange(skip as int, k as int),
        decreases total - k,
    {
        positions.push(all[k]);
        k = k + 1;
        assert(positions@ =~= all@.subrange(skip as int, k as int));
    }
    proof {
        let start = (params.page - 1) * params.limit;
        if start < total {
            assert(skip == start);
        }
        assert(positions@ =~= page_spec(history@, params));
    }
    Ok(ClosedPositionsResponse { positions, total, page: params.page, limit: params.limit })
}

} // verus!

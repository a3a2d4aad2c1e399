//! The pagination engine: clamping of the requested page and limit, the
//! page count, the window a page cuts from the filtered records, and the
//! laws that pages partition those records.

use vstd::prelude::*;
use vstd::arithmetic::div_mod::{lemma_fundamental_div_mod, lemma_mod_division_less_than_divisor};
use vstd::arithmetic::mul::{lemma_mul_inequality, lemma_mul_nonnegative};
use vstd::math::min;
use crate::book::{BookParams, BookView, ParamsView, distinct_ids};

verus! {

/// The page actually served: the requested page floored at 1; default 1.
pub open spec fn effective_page(p: ParamsView) -> int {
    let requested: int = if p.page is Some {
        p.page->Some_0 as int
    } else {
        1
    };
    if requested < 1 {
        1
    } else {
        requested
    }
}

/// The page size actually served: the requested limit capped at 100;
/// default 10. A requested limit of zero falls back to the default rather
/// than dividing by zero in the page count.
pub open spec fn effective_limit(p: ParamsView) -> int {
    let requested: int = if p.limit is Some {
        p.limit->Some_0 as int
    } else {
        10
    };
    if requested == 0 {
        10
    } else if requested > 100 {
        100
    } else {
        requested
    }
}

/// How many pages of size `limit` hold `total` records: the ceiling of
/// `total / limit`, zero when the store is empty.
pub open spec fn pages_total(total: int, limit: int) -> int
    recommends
        1 <= limit,
{
    total / limit + if total % limit == 0 {
        0int
    } else {
        1int
    }
}

/// The window that 1-based page `page` of size `limit` cuts from `s`: up to
/// `limit` records from offset `(page - 1) * limit`, empty when that offset
/// is at or beyond the end.
pub open spec fn page_window(s: Seq<BookView>, page: int, limit: int) -> Seq<BookView>
    recommends
        1 <= page,
        1 <= limit,
{
    let start = (page - 1) * limit;
    if start >= s.len() {
        Seq::empty()
    } else if start + limit >= s.len() {
        s.subrange(start, s.len() as int)
    } else {
        s.subrange(start, start + limit)
    }
}

/// The page the parameters ask for, floored at 1.
pub fn effective_page_of(params: &BookParams) -> (r: usize)
    ensures
        r as int == effective_page(params@),
{
    match params.page {
        Some(p) => if p < 1 {
            1
        } else {
            p
        },
        None => 1,
    }
}

/// The page size the parameters ask for, capped at 100, with zero falling
/// back to the default of 10.
pub fn effective_limit_of(params: &BookParams) -> (r: usize)
    ensures
        r as int == effective_limit(params@),
        1 <= r <= 100,
{
    let requested = match params.limit {
        Some(l) => l,
        None => 10,
    };
    if requested == 0 {
        10
    } else if requested > 100 {
        100
    } else {
        requested
    }
}

/// The combined length of pages 1 through `k`.
pub open spec fn window_len_sum(s: Seq<BookView>, limit: int, k: int) -> int
    decreases k,
{
    if k <= 0 {
        0
    } else {
        window_len_sum(s, limit, k - 1) + page_window(s, k, limit).len()
    }
}

proof fn lemma_window_len_sum_caps(s: Seq<BookView>, limit: int, k: int)
    requires
        1 <= limit,
        0 <= k,
    ensures
        window_len_sum(s, limit, k) == min(s.len() as int, k * limit),
    decreases k,
{
    let n = s.len() as int;
    if k == 0 {
        assert(0int * limit == 0);
    } else {
        lemma_window_len_sum_caps(s, limit, k - 1);
        let start = (k - 1) * limit;
        lemma_mul_nonnegative(k - 1, limit);
        assert(k * limit == (k - 1) * limit + limit) by (nonlinear_arith);
        if start >= n {
        } else {
        }
    }
}

/// Bounds of the page count: it is at most the record count, all pages
/// together reach the end, and every page before the last starts strictly
/// inside the records.
pub proof fn lemma_pages_total_bounds(total: int, limit: int)
    requires
        1 <= limit,
        0 <= total,
    ensures
        0 <= pages_total(total, limit) <= total,
        pages_total(total, limit) * limit >= total,
        total > 0 ==> (pages_total(total, limit) - 1) * limit < total,
{
    lemma_fundamental_div_mod(total, limit);
    lemma_mod_division_less_than_divisor(total, limit);
    let q = total / limit;
    let m = total % limit;
    let k = pages_total(total, limit);
    assert(total == limit * q + m);
    assert(0 <= q && q <= limit * q) by (nonlinear_arith)
        requires
            limit >= 1 && limit * q + m == total && 0 <= m < limit && total >= 0,
    ;
    assert(limit * q == q * limit) by (nonlinear_arith);
    if m == 0 {
        assert(k == q);
        assert(k * limit >= total);
        if total > 0 {
            assert((q - 1) * limit == q * limit - limit) by (nonlinear_arith);
        }
    } else {
        assert(k == q + 1);
        assert((q + 1) * limit == q * limit + limit) by (nonlinear_arith);
        assert(((q + 1) - 1) * limit == q * limit) by (nonlinear_arith);
    }
}

/// Pagination loses nothing and repeats nothing in count: over pages 1
/// through `pages_total`, the window lengths sum to the number of records.
pub proof fn lemma_pages_cover_all(s: Seq<BookView>, limit: int)
    requires
        1 <= limit,
    ensures
        window_len_sum(s, limit, pages_total(s.len() as int, limit)) == s.len(),
{
    let n = s.len() as int;
    let k = pages_total(n, limit);
    lemma_fundamental_div_mod(n, limit);
    assert(0 <= n % limit < limit);
    assert(0 <= n / limit) by (nonlinear_arith)
        requires
            n >= 0 && limit >= 1,
    ;
    assert(k * limit >= n) by (nonlinear_arith)
        requires
            n == limit * (n / limit) + n % limit && 0 <= n % limit < limit && (k == n / limit && n
                % limit == 0 || k == n / limit + 1 && n % limit != 0),
    ;
    lemma_window_len_sum_caps(s, limit, k);
}

/// Distinct pages draw from disjoint index ranges, so when no two records
/// share an id, no id appears on two different pages.
pub proof fn lemma_pages_disjoint(s: Seq<BookView>, limit: int, k1: int, k2: int)
    requires
        1 <= limit,
        1 <= k1,
        1 <= k2,
        k1 != k2,
        distinct_ids(s),
    ensures
        forall|i1: int, i2: int|
            0 <= i1 < page_window(s, k1, limit).len() && 0 <= i2 < page_window(
                s,
                k2,
                limit,
            ).len() ==> page_window(s, k1, limit)[i1].id != page_window(s, k2, limit)[i2].id,
{
    assert forall|i1: int, i2: int|
        0 <= i1 < page_window(s, k1, limit).len() && 0 <= i2 < page_window(
            s,
            k2,
            limit,
        ).len() implies page_window(s, k1, limit)[i1].id != page_window(s, k2, limit)[i2].id by {
        let lo = if k1 < k2 {
            k1
        } else {
            k2
        };
        let hi = if k1 < k2 {
            k2
        } else {
            k1
        };
        let jlo = if k1 < k2 {
            i1
        } else {
            i2
        };
        let jhi = if k1 < k2 {
            i2
        } else {
            i1
        };
        let start_lo = (lo - 1) * limit;
        let start_hi = (hi - 1) * limit;
        assert(page_window(s, lo, limit).len() <= limit);
        assert(page_window(s, lo, limit)[jlo] == s[start_lo + jlo]);
        assert(page_window(s, hi, limit)[jhi] == s[start_hi + jhi]);
        assert(lo * limit == (lo - 1) * limit + limit) by (nonlinear_arith);
        lemma_mul_inequality(lo, hi - 1, limit);
        assert(start_lo + jlo < start_hi + jhi);
    }
}

} // verus!

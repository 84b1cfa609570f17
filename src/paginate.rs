use vstd::prelude::*;
use crate::product::Product;

verus! {

/// The query of a product list request.
pub struct Params {
    pub page: Option<u8>,
    pub limit: Option<u8>,
    pub sort_by: Option<String>,
}

/// The page asked for, 1 when absent; page 0 is read as page 1.
pub open spec fn effective_page(page: Option<u8>) -> int {
    match page {
        Some(p) => if p == 0 {
            1
        } else {
            p as int
        },
        None => 1,
    }
}

/// The page size that the offset of a page is computed with: 10 when absent.
pub open spec fn offset_limit(limit: Option<u8>) -> int {
    match limit {
        Some(l) => l as int,
        None => 10,
    }
}

/// The number of items a page holds at most: 100 when absent.
pub open spec fn window_limit(limit: Option<u8>) -> int {
    match limit {
        Some(l) => l as int,
        None => 100,
    }
}

/// The position of the first item of a page.
pub open spec fn page_start(page: Option<u8>, limit: Option<u8>) -> int {
    (effective_page(page) - 1) * offset_limit(limit)
}

/// The items of `s` on a page: those from the page start on, at most a window of them,
/// and none where the start lies at or past the end.
pub open spec fn page_window(s: Seq<Product>, page: Option<u8>, limit: Option<u8>) -> Seq<Product> {
    let start = page_start(page, limit);
    let end = start + window_limit(limit);
    let len = s.len() as int;
    s.subrange(
        if start < len {
            start
        } else {
            len
        },
        if end < len {
            end
        } else {
            len
        },
    )
}

/// The first page with a page size of `n` holds exactly the first `n` items, in
/// their order, of a sequence that has at least `n` of them.
pub proof fn lemma_first_page_is_prefix(s: Seq<Product>, n: u8)
    requires
        s.len() >= n,
    ensures
        page_window(s, Some(1u8), Some(n)) == s.subrange(0, n as int),
{
    assert(effective_page(Some(1u8)) == 1);
    assert(page_start(Some(1u8), Some(n)) == 0);
}

/// A page that starts at or past the end of the sequence is empty.
pub proof fn lemma_page_past_end_is_empty(s: Seq<Product>, page: Option<u8>, limit: Option<u8>)
    requires
        page_start(page, limit) >= s.len(),
    ensures
        page_window(s, page, limit).len() == 0,
{
}

/// Without page or limit, a sequence of at most ten items comes back whole.
pub proof fn lemma_default_page_keeps_short_sequence(s: Seq<Product>)
    requires
        s.len() <= 10,
    ensures
        page_window(s, None, None) == s,
{
    assert(s.subrange(0, s.len() as int) =~= s);
}

/// Cuts the products down to the page that `params` asks for.
pub fn paginate_products(products: Vec<Product>, params: &Params) -> (r: Vec<Product>)
    ensures
        r@ == page_window(products@, params.page, params.limit),
{
    let page: u8 = match params.page {
        Some(p) => if p == 0 {
            1
        } else {
            p
        },
        None => 1,
    };
    let step: u8 = match params.limit {
        Some(l) => l,
        None => 10,
    };
    let window: u8 = match params.limit {
        Some(l) => l,
        None => 100,
    };
    let index: usize = (page - 1) as usize;
    assert(index * (step as usize) <= 255 * 255) by (nonlinear_arith)
        requires
            index <= 255,
            step <= 255,
    ;
    let start: usize = index * (step as usize);
    let ghost all = products@;
    let mut products = products;
    if start >= products.len() {
        Vec::new()
    } else {
        let mut tail = products.split_off(start);
        tail.truncate(window as usize);
        assert(tail@ =~= page_window(all, params.page, params.limit)) by {
            assert(start as int == page_start(params.page, params.limit));
        }
        tail
    }
}

} // verus!

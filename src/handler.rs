use vstd::prelude::*;
use crate::paginate::{page_window, paginate_products, Params};
use crate::product::{filter_images, reduced_images, Product};
use crate::sort::{requested_order, sort_products, stable_sorted};

verus! {

/// Why a product list request could not be answered.
#[derive(Clone, Copy, Debug, PartialEq, Eq, Structural)]
pub enum ProductError {
    /// The catalog could not be reached.
    UpstreamUnreachable,
    /// The catalog answered with a body that is not a list of products.
    UpstreamMalformed,
    /// The query parameters do not have the expected types.
    InvalidQuery,
}

/// The HTTP status that answers a request which failed with `e`.
pub open spec fn status_of(e: ProductError) -> u16 {
    match e {
        ProductError::UpstreamUnreachable => 502,
        ProductError::UpstreamMalformed => 502,
        ProductError::InvalidQuery => 400,
    }
}

/// The text of the error body for `e`.
pub open spec fn message_of(e: ProductError) -> Seq<char> {
    match e {
        ProductError::UpstreamUnreachable => "the product catalog could not be reached"@,
        ProductError::UpstreamMalformed => "the product catalog sent an unreadable answer"@,
        ProductError::InvalidQuery => "the query parameters are invalid"@,
    }
}

impl ProductError {
    /// The HTTP status of the error response: 502 for catalog failures, 400 for a bad query.
    pub fn status_code(&self) -> (r: u16)
        ensures
            r == status_of(*self),
    {
        match self {
            ProductError::UpstreamUnreachable => 502,
            ProductError::UpstreamMalformed => 502,
            ProductError::InvalidQuery => 400,
        }
    }

    /// The text that the error body carries.
    pub fn message(&self) -> (r: String)
        ensures
            r@ == message_of(*self),
    {
        match self {
            ProductError::UpstreamUnreachable => String::from_str(
                "the product catalog could not be reached",
            ),
            ProductError::UpstreamMalformed => String::from_str(
                "the product catalog sent an unreadable answer",
            ),
            ProductError::InvalidQuery => String::from_str("the query parameters are invalid"),
        }
    }
}

/// `after` holds the products of `before`, in order, each with its images cut down to the last.
pub open spec fn all_reduced(before: Seq<Product>, after: Seq<Product>) -> bool {
    &&& after.len() == before.len()
    &&& forall|k: int| 0 <= k < after.len() ==> reduced_images(#[trigger] before[k], after[k])
}

/// The products in the order that a `sortBy` value asks for.
pub open spec fn ordered_as_requested(s: Seq<Product>, sort_by: Option<String>) -> Seq<Product> {
    match requested_order(sort_by) {
        Some(order) => stable_sorted(order, s),
        None => s,
    }
}

/// `r` is the answer to a request with `params` over the fetched products: images cut
/// down, then sorted as asked, then the page asked for.
pub open spec fn list_response(fetched: Seq<Product>, params: Params, r: Seq<Product>) -> bool {
    exists|reduced: Seq<Product>|
        #[trigger] all_reduced(fetched, reduced) && r == page_window(
            ordered_as_requested(reduced, params.sort_by),
            params.page,
            params.limit,
        )
}

/// Turns the fetched products into the list that answers a request with `params`.
pub fn process_products(products: Vec<Product>, params: &Params) -> (r: Vec<Product>)
    ensures
        list_response(products@, *params, r@),
{
    let ghost fetched = products@;
    let reduced = filter_images(products);
    let ghost mid = reduced@;
    let sorted = sort_products(reduced, &params.sort_by);
    let r = paginate_products(sorted, params);
    assert(all_reduced(fetched, mid));
    r
}

/// The answer to a product list request, given what the catalog fetch gave: the page
/// of products on success, the same error otherwise.
pub fn respond(fetched: Result<Vec<Product>, ProductError>, params: &Params) -> (r: Result<
    Vec<Product>,
    ProductError,
>)
    ensures
        match fetched {
            Ok(products) => match r {
                Ok(out) => list_response(products@, *params, out@),
                Err(_) => false,
            },
            Err(e) => match r {
                Ok(_) => false,
                Err(e2) => e2 == e,
            },
        },
{
    match fetched {
        Ok(products) => Ok(process_products(products, params)),
        Err(e) => Err(e),
    }
}

/// The HTTP status of an answer: 200 with a list, the error's status otherwise.
pub fn response_status(r: &Result<Vec<Product>, ProductError>) -> (s: u16)
    ensures
        s == match r {
            Ok(_) => 200u16,
            Err(e) => status_of(*e),
        },
{
    match r {
        Ok(_) => 200,
        Err(e) => e.status_code(),
    }
}

} // verus!

//! The logic of a product list service over a remote catalog: image reduction,
//! stable sorting by price, pagination, and the answer to each request.
pub mod handler;
pub mod paginate;
pub mod price;
pub mod product;
pub mod sort;

use product_proxy::handler::{process_products, respond, response_status, ProductError};
use product_proxy::paginate::{paginate_products, Params};
use product_proxy::price::Price;
use product_proxy::product::{filter_images, keep_last_image, Category, Product};
use product_proxy::sort::{parse_sort_order, sort_products, SortOrder};

fn price(value: f64) -> Price {
    Price::from_bits(value.to_bits()).unwrap()
}

fn price_value(p: &Price) -> f64 {
    f64::from_bits(p.to_bits())
}

fn category() -> Category {
    Category {
        id: 1,
        name: "Clothes".to_string(),
        image: "https://example.com/clothes.png".to_string(),
        creation_at: "2024-01-01T00:00:00.000Z".to_string(),
        updated_at: "2024-01-02T00:00:00.000Z".to_string(),
    }
}

fn product(id: u32, value: f64) -> Product {
    Product {
        id,
        title: format!("Product {}", id),
        price: price(value),
        description: format!("Description of product {}", id),
        images: vec![format!("https://example.com/{}/a.png", id)],
        creation_at: "2024-01-01T00:00:00.000Z".to_string(),
        updated_at: "2024-01-02T00:00:00.000Z".to_string(),
        category: category(),
    }
}

fn ids(products: &[Product]) -> Vec<u32> {
    products.iter().map(|p| p.id).collect()
}

fn prices(products: &[Product]) -> Vec<f64> {
    products.iter().map(|p| price_value(&p.price)).collect()
}

fn params(page: Option<u8>, limit: Option<u8>, sort_by: Option<&str>) -> Params {
    Params { page, limit, sort_by: sort_by.map(|s| s.to_string()) }
}

fn catalog(count: u32) -> Vec<Product> {
    (1..=count).map(|i| product(i, (i * 10) as f64)).collect()
}

#[test]
fn price_rejects_nan() {
    assert!(Price::from_bits(f64::NAN.to_bits()).is_none());
    assert!(Price::from_bits((-f64::NAN).to_bits()).is_none());
}

#[test]
fn price_keeps_bits() {
    let p = price(19.99);
    assert_eq!(p.to_bits(), 19.99f64.to_bits());
    assert_eq!(price_value(&price(-3.5)), -3.5);
}

#[test]
fn price_rank_follows_value() {
    assert!(price(1.5).rank() < price(2.0).rank());
    assert!(price(-1.0).rank() < price(0.0).rank());
    assert!(price(-2.0).rank() < price(-1.0).rank());
    assert!(price(1e300).rank() < price(f64::INFINITY).rank());
    assert!(price(f64::NEG_INFINITY).rank() < price(-1e300).rank());
    assert_eq!(price(0.0).rank(), price(-0.0).rank());
    assert_eq!(price(0.0).rank(), 0);
}

#[test]
fn keep_last_image_takes_last() {
    let mut p = product(1, 5.0);
    p.images = vec!["a".to_string(), "b".to_string(), "c".to_string()];
    let r = keep_last_image(p);
    assert_eq!(r.images, vec!["c".to_string()]);
    assert_eq!(r.id, 1);
    assert_eq!(r.title, "Product 1");
}

#[test]
fn filter_images_each_product() {
    let mut a = product(1, 5.0);
    a.images = vec!["a1".to_string(), "a2".to_string()];
    let mut b = product(2, 6.0);
    b.images = vec![];
    let mut c = product(3, 7.0);
    c.images = vec!["c1".to_string()];
    let r = filter_images(vec![a, b, c]);
    assert_eq!(ids(&r), vec![1, 2, 3]);
    assert_eq!(r[0].images, vec!["a2".to_string()]);
    assert!(r[1].images.is_empty());
    assert_eq!(r[2].images, vec!["c1".to_string()]);
}

#[test]
fn filter_images_empty_list() {
    assert!(filter_images(vec![]).is_empty());
}

#[test]
fn parse_sort_order_values() {
    assert_eq!(parse_sort_order(&Some("asc".to_string())), Some(SortOrder::Ascending));
    assert_eq!(parse_sort_order(&Some("desc".to_string())), Some(SortOrder::Descending));
    assert_eq!(parse_sort_order(&Some("ASC".to_string())), None);
    assert_eq!(parse_sort_order(&Some("".to_string())), None);
    assert_eq!(parse_sort_order(&None), None);
}

#[test]
fn sort_ascending_by_price() {
    let input = vec![product(1, 30.0), product(2, 10.0), product(3, 20.0), product(4, 15.5)];
    let r = sort_products(input, &Some("asc".to_string()));
    assert_eq!(ids(&r), vec![2, 4, 3, 1]);
    assert_eq!(prices(&r), vec![10.0, 15.5, 20.0, 30.0]);
}

#[test]
fn sort_descending_by_price() {
    let input = vec![product(1, 30.0), product(2, 10.0), product(3, 20.0), product(4, -1.0)];
    let r = sort_products(input, &Some("desc".to_string()));
    assert_eq!(ids(&r), vec![1, 3, 2, 4]);
}

#[test]
fn sort_is_stable_for_equal_prices() {
    let input = vec![
        product(1, 20.0),
        product(2, 10.0),
        product(3, 20.0),
        product(4, 10.0),
        product(5, 0.0),
        product(6, -0.0),
    ];
    let asc = sort_products(
        vec![
            product(1, 20.0),
            product(2, 10.0),
            product(3, 20.0),
            product(4, 10.0),
            product(5, 0.0),
            product(6, -0.0),
        ],
        &Some("asc".to_string()),
    );
    assert_eq!(ids(&asc), vec![5, 6, 2, 4, 1, 3]);
    let desc = sort_products(input, &Some("desc".to_string()));
    assert_eq!(ids(&desc), vec![1, 3, 2, 4, 5, 6]);
}

#[test]
fn sort_unrecognized_keeps_order() {
    let r = sort_products(catalog(4).into_iter().rev().collect(), &Some("price".to_string()));
    assert_eq!(ids(&r), vec![4, 3, 2, 1]);
    let r = sort_products(vec![product(1, 3.0), product(2, 1.0)], &None);
    assert_eq!(ids(&r), vec![1, 2]);
}

#[test]
fn sort_empty_list() {
    assert!(sort_products(vec![], &Some("asc".to_string())).is_empty());
}

#[test]
fn paginate_first_page() {
    let r = paginate_products(catalog(5), &params(Some(1), Some(3), None));
    assert_eq!(ids(&r), vec![1, 2, 3]);
}

#[test]
fn paginate_second_page() {
    let r = paginate_products(catalog(5), &params(Some(2), Some(2), None));
    assert_eq!(ids(&r), vec![3, 4]);
    let r = paginate_products(catalog(5), &params(Some(3), Some(2), None));
    assert_eq!(ids(&r), vec![5]);
}

#[test]
fn paginate_defaults_offset_ten_window_hundred() {
    let r = paginate_products(catalog(150), &params(None, None, None));
    assert_eq!(r.len(), 100);
    assert_eq!(r[0].id, 1);
    let r = paginate_products(catalog(150), &params(Some(2), None, None));
    assert_eq!(r.len(), 100);
    assert_eq!(r[0].id, 11);
    assert_eq!(r[99].id, 110);
}

#[test]
fn paginate_past_end_is_empty() {
    let r = paginate_products(catalog(5), &params(Some(4), Some(2), None));
    assert!(r.is_empty());
    let r = paginate_products(catalog(5), &params(Some(255), Some(255), None));
    assert!(r.is_empty());
}

#[test]
fn paginate_page_zero_is_first_page() {
    let r = paginate_products(catalog(5), &params(Some(0), Some(2), None));
    assert_eq!(ids(&r), vec![1, 2]);
}

#[test]
fn paginate_limit_zero_is_empty() {
    let r = paginate_products(catalog(5), &params(Some(1), Some(0), None));
    assert!(r.is_empty());
}

#[test]
fn sort_then_first_page_of_three() {
    let upstream = vec![product(1, 30.0), product(2, 10.0), product(3, 20.0)];
    let r = process_products(upstream, &params(Some(1), Some(2), Some("asc")));
    assert_eq!(ids(&r), vec![2, 3]);
    assert_eq!(prices(&r), vec![10.0, 20.0]);
}

#[test]
fn no_query_returns_all_five_in_order() {
    let r = process_products(catalog(5), &params(None, None, None));
    assert_eq!(ids(&r), vec![1, 2, 3, 4, 5]);
}

#[test]
fn process_reduces_images() {
    let mut a = product(1, 5.0);
    a.images = vec!["x".to_string(), "y".to_string()];
    let r = process_products(vec![a], &params(None, None, None));
    assert_eq!(r[0].images, vec!["y".to_string()]);
}

#[test]
fn upstream_failure_then_next_request_served() {
    let failed = respond(Err(ProductError::UpstreamUnreachable), &params(None, None, None));
    assert_eq!(failed.as_ref().err(), Some(&ProductError::UpstreamUnreachable));
    assert_eq!(response_status(&failed), 502);
    let next = respond(Ok(catalog(3)), &params(None, None, Some("desc")));
    assert_eq!(response_status(&next), 200);
    assert_eq!(ids(&next.unwrap()), vec![3, 2, 1]);
}

#[test]
fn error_statuses_and_messages() {
    assert_eq!(ProductError::UpstreamUnreachable.status_code(), 502);
    assert_eq!(ProductError::UpstreamMalformed.status_code(), 502);
    assert_eq!(ProductError::InvalidQuery.status_code(), 400);
    assert_eq!(
        ProductError::UpstreamUnreachable.message(),
        "the product catalog could not be reached"
    );
    assert_eq!(
        ProductError::UpstreamMalformed.message(),
        "the product catalog sent an unreadable answer"
    );
    assert_eq!(ProductError::InvalidQuery.message(), "the query parameters are invalid");
    let r = respond(Err(ProductError::InvalidQuery), &params(None, None, None));
    assert_eq!(response_status(&r), 400);
}

use vstd::prelude::*;
use crate::price::Price;

verus! {

/// The category a product belongs to, as the catalog reports it.
pub struct Category {
    pub id: u32,
    pub name: String,
    pub image: String,
    pub creation_at: String,
    pub updated_at: String,
}

/// One product record of the catalog.
pub struct Product {
    pub id: u32,
    pub title: String,
    pub price: Price,
    pub description: String,
    pub images: Vec<String>,
    pub creation_at: String,
    pub updated_at: String,
    pub category: Category,
}

/// A sequence of images cut down to its last entry; an empty one stays empty.
pub open spec fn last_image_only(images: Seq<String>) -> Seq<String> {
    if images.len() == 0 {
        images
    } else {
        seq![images.last()]
    }
}

/// `after` is `before` with its images cut down to the last one, and nothing else changed.
pub open spec fn reduced_images(before: Product, after: Product) -> bool {
    &&& after.id == before.id
    &&& after.title == before.title
    &&& after.price == before.price
    &&& after.description == before.description
    &&& after.images@ == last_image_only(before.images@)
    &&& after.creation_at == before.creation_at
    &&& after.updated_at == before.updated_at
    &&& after.category == before.category
}

/// Cuts the images of one product down to its last image.
pub fn keep_last_image(product: Product) -> (r: Product)
    ensures
        reduced_images(product, r),
{
    let mut product = product;
    let ghost images = product.images@;
    if let Some(image) = product.images.pop() {
        let mut single: Vec<String> = Vec::new();
        single.push(image);
        product.images = single;
        assert(product.images@ =~= last_image_only(images));
    }
    product
}

/// Cuts the images of every product down to its last image, keeping the order of the products.
pub fn filter_images(products: Vec<Product>) -> (r: Vec<Product>)
    ensures
        r@.len() == products@.len(),
        forall|k: int| 0 <= k < r@.len() ==> reduced_images(#[trigger] products@[k], r@[k]),
{
    let ghost all = products@;
    let mut rest = products;
    let mut done: Vec<Product> = Vec::new();
    while rest.len() > 0
        invariant
            rest@.len() <= all.len(),
            rest@ == all.subrange(0, rest@.len() as int),
            done@.len() == all.len() - rest@.len(),
            forall|k: int|
                0 <= k < done@.len() ==> reduced_images(
                    #[trigger] all[rest@.len() + k],
                    done@[k],
                ),
        decreases rest@.len(),
    {
        let ghost before = done@;
        let product = rest.pop().unwrap();
        done.insert(0, keep_last_image(product));
        assert forall|k: int| 0 <= k < done@.len() implies reduced_images(
            #[trigger] all[rest@.len() + k],
            done@[k],
        ) by {
            if k > 0 {
                assert(done@[k] == before[k - 1]);
                assert(all[rest@.len() + k] == all[(rest@.len() + 1) + (k - 1)]);
            }
        }
    }
    assert forall|k: int| 0 <= k < done@.len() implies reduced_images(
        #[trigger] all[k],
        done@[k],
    ) by {
        assert(all[rest@.len() + k] == all[k]);
    }
    done
}

} // verus!

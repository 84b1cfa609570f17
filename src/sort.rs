use vstd::prelude::*;
use crate::price::rank_of;
use crate::product::Product;

verus! {

broadcast use vstd::seq_lib::to_multiset_insert;

/// The order in which a product list may be sorted by price.
#[derive(Clone, Copy, Debug, PartialEq, Eq, Structural)]
pub enum SortOrder {
    Ascending,
    Descending,
}

/// The order that a `sortBy` value asks for: `"asc"`, `"desc"`, or none for any
/// other value and for an absent one.
pub open spec fn requested_order(sort_by: Option<String>) -> Option<SortOrder> {
    match sort_by {
        Some(s) => if s@ == seq!['a', 's', 'c'] {
            Some(SortOrder::Ascending)
        } else if s@ == seq!['d', 'e', 's', 'c'] {
            Some(SortOrder::Descending)
        } else {
            None
        },
        None => None,
    }
}

/// The rank of a product's price.
pub open spec fn price_rank(p: Product) -> int {
    rank_of(p.price@)
}

/// The key that a sort in `order` arranges in non-decreasing order.
pub open spec fn sort_key(order: SortOrder, p: Product) -> int {
    match order {
        SortOrder::Ascending => price_rank(p),
        SortOrder::Descending => -price_rank(p),
    }
}

/// Where `x` goes in `s`: before the first item whose key is not below that of `x`.
pub open spec fn insertion_point(order: SortOrder, x: Product, s: Seq<Product>) -> nat
    decreases s.len(),
{
    if s.len() == 0 {
        0
    } else if sort_key(order, x) <= sort_key(order, s[0]) {
        0
    } else {
        1 + insertion_point(order, x, s.drop_first())
    }
}

/// The stable sort of `s` in `order`: the first item is placed, ahead of every item
/// with an equal key, into the stable sort of the others.
pub open spec fn stable_sorted(order: SortOrder, s: Seq<Product>) -> Seq<Product>
    decreases s.len(),
{
    if s.len() == 0 {
        s
    } else {
        let rest = stable_sorted(order, s.drop_first());
        rest.insert(insertion_point(order, s[0], rest) as int, s[0])
    }
}

/// Every item's key is at most that of every later item.
pub open spec fn keys_non_decreasing(order: SortOrder, s: Seq<Product>) -> bool {
    forall|i: int, j: int|
        0 <= i < j < s.len() ==> sort_key(order, #[trigger] s[i]) <= sort_key(order, #[trigger] s[j])
}

proof fn lemma_insertion_point(order: SortOrder, x: Product, s: Seq<Product>)
    ensures
        insertion_point(order, x, s) <= s.len(),
        forall|j: int|
            0 <= j < insertion_point(order, x, s) ==> sort_key(order, #[trigger] s[j]) < sort_key(
                order,
                x,
            ),
        insertion_point(order, x, s) < s.len() ==> sort_key(order, x) <= sort_key(
            order,
            s[insertion_point(order, x, s) as int],
        ),
    decreases s.len(),
{
    if s.len() > 0 && sort_key(order, x) > sort_key(order, s[0]) {
        lemma_insertion_point(order, x, s.drop_first());
        assert forall|j: int| 0 <= j < insertion_point(order, x, s) implies sort_key(
            order,
            #[trigger] s[j],
        ) < sort_key(order, x) by {
            if j > 0 {
                assert(s[j] == s.drop_first()[j - 1]);
            }
        }
    }
}

proof fn lemma_insertion_point_at(order: SortOrder, x: Product, s: Seq<Product>, p: int)
    requires
        0 <= p <= s.len(),
        forall|j: int| 0 <= j < p ==> sort_key(order, #[trigger] s[j]) < sort_key(order, x),
        p < s.len() ==> sort_key(order, x) <= sort_key(order, s[p]),
    ensures
        insertion_point(order, x, s) == p,
    decreases p,
{
    if p > 0 {
        assert(sort_key(order, s[0]) < sort_key(order, x));
        assert forall|j: int| 0 <= j < p - 1 implies sort_key(
            order,
            #[trigger] s.drop_first()[j],
        ) < sort_key(order, x) by {
            assert(s.drop_first()[j] == s[j + 1]);
        }
        lemma_insertion_point_at(order, x, s.drop_first(), p - 1);
    }
}

/// A stable sort rearranges the items, and leaves their keys in non-decreasing order.
pub proof fn lemma_stable_sorted(order: SortOrder, s: Seq<Product>)
    ensures
        stable_sorted(order, s).len() == s.len(),
        stable_sorted(order, s).to_multiset() == s.to_multiset(),
        keys_non_decreasing(order, stable_sorted(order, s)),
    decreases s.len(),
{
    if s.len() > 0 {
        let rest = stable_sorted(order, s.drop_first());
        let x = s[0];
        let p = insertion_point(order, x, rest) as int;
        lemma_stable_sorted(order, s.drop_first());
        lemma_insertion_point(order, x, rest);
        let r = rest.insert(p, x);
        assert(s =~= s.drop_first().insert(0, x));
        assert forall|i: int, j: int| 0 <= i < j < r.len() implies sort_key(
            order,
            #[trigger] r[i],
        ) <= sort_key(order, #[trigger] r[j]) by {
            if j < p {
                assert(r[i] == rest[i] && r[j] == rest[j]);
            } else if j == p {
                assert(r[i] == rest[i]);
            } else if i < p {
                assert(r[i] == rest[i] && r[j] == rest[j - 1]);
                assert(sort_key(order, rest[p]) <= sort_key(order, rest[j - 1]));
            } else if i == p {
                assert(r[j] == rest[j - 1]);
                assert(sort_key(order, rest[p]) <= sort_key(order, rest[j - 1]));
            } else {
                assert(r[i] == rest[i - 1] && r[j] == rest[j - 1]);
            }
        }
    }
}

/// Whether a product's price has the rank `rank`.
pub open spec fn has_rank(rank: int) -> spec_fn(Product) -> bool {
    |p: Product| price_rank(p) == rank
}

/// Sorting is stable: the products of any one price come out in the order they
/// came in.
pub proof fn lemma_stable_sort_keeps_equal_prices_in_order(
    order: SortOrder,
    s: Seq<Product>,
    rank: int,
)
    ensures
        stable_sorted(order, s).filter(has_rank(rank)) == s.filter(has_rank(rank)),
    decreases s.len(),
{
    broadcast use Seq::filter_distributes_over_add, Seq::lemma_filter_prepend;

    if s.len() > 0 {
        let pred = has_rank(rank);
        let x = s[0];
        let rest = stable_sorted(order, s.drop_first());
        let p = insertion_point(order, x, rest) as int;
        lemma_stable_sort_keeps_equal_prices_in_order(order, s.drop_first(), rank);
        lemma_stable_sorted(order, s.drop_first());
        lemma_insertion_point(order, x, rest);
        let a = rest.subrange(0, p);
        let b = rest.subrange(p, rest.len() as int);
        assert(s =~= seq![x] + s.drop_first());
        assert(rest =~= a + b);
        assert(rest.insert(p, x) =~= a + (seq![x] + b));
        assert(stable_sorted(order, s) == rest.insert(p, x));
        if pred(x) {
            assert(a.all(|y: Product| !pred(y))) by {
                assert forall|j: int| 0 <= j < a.len() implies !pred(#[trigger] a[j]) by {
                    assert(a[j] == rest[j]);
                    assert(sort_key(order, rest[j]) < sort_key(order, x));
                }
            }
            a.lemma_all_neg_filter_empty(pred);
            assert(a.filter(pred) =~= Seq::<Product>::empty());
            assert(a.filter(pred) + seq![x] + b.filter(pred) =~= seq![x] + b.filter(pred));
            assert(a.filter(pred) + b.filter(pred) =~= b.filter(pred));
        } else {
            assert(Seq::<Product>::empty() + b.filter(pred) =~= b.filter(pred));
        }
    }
}

/// The sort key of a product, computed.
fn key_of(order: SortOrder, p: &Product) -> (k: i64)
    ensures
        k as int == sort_key(order, *p),
{
    let rank = p.price.rank();
    match order {
        SortOrder::Ascending => rank,
        SortOrder::Descending => -rank,
    }
}

/// Reads a `sortBy` value: `"asc"` and `"desc"` name an order, anything else none.
pub fn parse_sort_order(sort_by: &Option<String>) -> (r: Option<SortOrder>)
    ensures
        r == requested_order(*sort_by),
{
    match sort_by {
        Some(s) => {
            let asc = String::from_str("asc");
            let desc = String::from_str("desc");
            proof {
                reveal_strlit("asc");
                reveal_strlit("desc");
                assert(asc@ =~= seq!['a', 's', 'c']);
                assert(desc@ =~= seq!['d', 'e', 's', 'c']);
            }
            if s.eq(&asc) {
                Some(SortOrder::Ascending)
            } else if s.eq(&desc) {
                Some(SortOrder::Descending)
            } else {
                None
            }
        },
        None => None,
    }
}

/// Sorts the products by price in `order`, keeping products of equal price in the
/// order they came in.
pub fn sort_in_order(products: Vec<Product>, order: SortOrder) -> (r: Vec<Product>)
    ensures
        r@ == stable_sorted(order, products@),
{
    let ghost all = products@;
    let mut rest = products;
    let mut done: Vec<Product> = Vec::new();
    while rest.len() > 0
        invariant
            rest@.len() <= all.len(),
            rest@ == all.subrange(0, rest@.len() as int),
            done@ == stable_sorted(order, all.subrange(rest@.len() as int, all.len() as int)),
        decreases rest@.len(),
    {
        let x = rest.pop().unwrap();
        let kx = key_of(order, &x);
        let mut p: usize = 0;
        while p < done.len() && key_of(order, &done[p]) < kx
            invariant
                p <= done@.len(),
                forall|j: int| 0 <= j < p ==> sort_key(order, #[trigger] done@[j]) < kx,
            decreases done@.len() - p,
        {
            p = p + 1;
        }
        proof {
            lemma_insertion_point_at(order, x, done@, p as int);
            let s = all.subrange(rest@.len() as int, all.len() as int);
            assert(s.drop_first() =~= all.subrange(rest@.len() + 1int, all.len() as int));
            assert(s[0] == x);
        }
        done.insert(p, x);
    }
    assert(all.subrange(0, all.len() as int) =~= all);
    done
}

/// Sorts the products by price as `sort_by` asks: ascending for `"asc"`, descending
/// for `"desc"`, both stable; any other value, or none, leaves the order as it is.
pub fn sort_products(products: Vec<Product>, sort_by: &Option<String>) -> (r: Vec<Product>)
    ensures
        r@ == match requested_order(*sort_by) {
            Some(order) => stable_sorted(order, products@),
            None => products@,
        },
        r@.to_multiset() == products@.to_multiset(),
        requested_order(*sort_by) == Some(SortOrder::Ascending) ==> forall|i: int, j: int|
            0 <= i < j < r@.len() ==> price_rank(#[trigger] r@[i]) <= price_rank(#[trigger] r@[j]),
        requested_order(*sort_by) == Some(SortOrder::Descending) ==> forall|i: int, j: int|
            0 <= i < j < r@.len() ==> price_rank(#[trigger] r@[i]) >= price_rank(#[trigger] r@[j]),
        requested_order(*sort_by) == None::<SortOrder> ==> r@ == products@,
{
    match parse_sort_order(sort_by) {
        Some(order) => {
            proof {
                lemma_stable_sorted(order, products@);
            }
            let r = sort_in_order(products, order);
            assert forall|i: int, j: int| 0 <= i < j < r@.len() implies sort_key(
                order,
                #[trigger] r@[i],
            ) <= sort_key(order, #[trigger] r@[j]) by {}
            r
        },
        None => products,
    }
}

} // verus!

//! Products, and the columns of a list of them.

use vstd::prelude::*;

verus! {

/// A product of the catalogue.
#[derive(Debug)]
pub struct Product {
    pub id: u32,
    pub handle: String,
}

/// The handle of each product, in the order of the list.
pub fn get_product_handles(products: &[Product]) -> (handles: Vec<String>)
    ensures
        handles@ == products@.map_values(|p: Product| p.handle),
{
    let mut handles: Vec<String> = Vec::new();
    let mut i: usize = 0;
    while i < products.len()
        invariant
            i <= products@.len(),
            handles@ == products@.take(i as int).map_values(|p: Product| p.handle),
        decreases products@.len() - i,
    {
        handles.push(products[i].handle.clone());
        proof {
            assert(products@.take(i + 1) =~= products@.take(i as int).push(products@[i as int]));
        }
        i += 1;
    }
    proof {
        assert(products@.take(i as int) =~= products@);
    }
    handles
}

/// The id of each product, in the order of the list.
pub fn get_product_ids(products: &[Product]) -> (ids: Vec<u32>)
    ensures
        ids@ == products@.map_values(|p: Product| p.id),
{
    let mut ids: Vec<u32> = Vec::new();
    let mut i: usize = 0;
    while i < products.len()
        invariant
            i <= products@.len(),
            ids@ == products@.take(i as int).map_values(|p: Product| p.id),
        decreases products@.len() - i,
    {
        ids.push(products[i].id);
        proof {
            assert(products@.take(i + 1) =~= products@.take(i as int).push(products@[i as int]));
        }
        i += 1;
    }
    proof {
        assert(products@.take(i as int) =~= products@);
    }
    ids
}

/// The id of each product paired with its handle, in the order of the list.
pub fn get_product_handles_and_ids(products: &[Product]) -> (pares: Vec<(u32, String)>)
    ensures
        pares@ == products@.map_values(|p: Product| (p.id, p.handle)),
{
    let handles = get_product_handles(products);
    let ids = get_product_ids(products);
    let mut pares: Vec<(u32, String)> = Vec::new();
    let mut i: usize = 0;
    while i < ids.len()
        invariant
            i <= ids@.len(),
            ids@.len() == products@.len(),
            handles@.len() == products@.len(),
            ids@ == products@.map_values(|p: Product| p.id),
            handles@ == products@.map_values(|p: Product| p.handle),
            pares@ == products@.take(i as int).map_values(|p: Product| (p.id, p.handle)),
        decreases ids@.len() - i,
    {
        pares.push((ids[i], handles[i].clone()));
        proof {
            assert(products@.take(i + 1) =~= products@.take(i as int).push(products@[i as int]));
        }
        i += 1;
    }
    proof {
        assert(products@.take(i as int) =~= products@);
    }
    pares
}

} // verus!

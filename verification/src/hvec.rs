//! Bounded, stack-allocated vectors from the `heapless` crate.
//!
//! Each capacity used by the stack has a name for what a vector of that
//! capacity holds, and trusted wrappers that state what each `heapless`
//! method does to it.

use vstd::prelude::*;
use crate::zcl::discover::{DiscoverAttributeInfo, DiscoverAttributeExtendedInfo};

verus! {

#[verifier::external_type_specification]
#[verifier::external_body]
#[verifier::reject_recursive_types(T)]
pub struct ExHeaplessVec<T, const N: usize>(heapless::Vec<T, N>);

// ── heapless::Vec<u8, 24> ──

/// What a `heapless::Vec<u8, 24>` holds, in order.
pub uninterp spec fn u8x24_items(v: heapless::Vec<u8, 24>) -> Seq<u8>;

/// `heapless::Vec::new`: an empty vector.
#[verifier::external_body]
pub(crate) fn u8x24_new() -> (v: heapless::Vec<u8, 24>)
    ensures
        u8x24_items(v) == Seq::<u8>::empty(),
{
    heapless::Vec::new()
}

/// Calls `heapless::Vec::push`, which appends when fewer than 24 items are held;
/// otherwise hands the item back and leaves the vector unchanged.
#[verifier::external_body]
pub(crate) fn u8x24_push(v: &mut heapless::Vec<u8, 24>, x: u8) -> (r: Result<(), u8>)
    ensures
        r is Ok <==> u8x24_items(*old(v)).len() < 24,
        r is Ok ==> u8x24_items(*final(v)) == u8x24_items(*old(v)).push(x),
        r is Err ==> u8x24_items(*final(v)) == u8x24_items(*old(v)),
        r matches Err(y) ==> y == x,
{
    v.push(x)
}

/// Calls `heapless::Vec::extend_from_slice`, which appends all of `other` when it fits;
/// otherwise fails and leaves the vector unchanged.
#[verifier::external_body]
pub(crate) fn u8x24_extend_from_slice(v: &mut heapless::Vec<u8, 24>, other: &[u8]) -> (r: Result<(), ()>)
    ensures
        r is Ok <==> u8x24_items(*old(v)).len() + other@.len() <= 24,
        r is Ok ==> u8x24_items(*final(v)) == u8x24_items(*old(v)) + other@,
        r is Err ==> u8x24_items(*final(v)) == u8x24_items(*old(v)),
{
    v.extend_from_slice(other)
}

/// `heapless::Vec::as_slice`: the items held, never more than 24.
#[verifier::external_body]
pub(crate) fn u8x24_as_slice(v: &heapless::Vec<u8, 24>) -> (r: &[u8])
    ensures
        r@ == u8x24_items(*v),
        r@.len() <= 24,
{
    v.as_slice()
}

// ── heapless::Vec<u8, 32> ──

/// What a `heapless::Vec<u8, 32>` holds, in order.
pub uninterp spec fn u8x32_items(v: heapless::Vec<u8, 32>) -> Seq<u8>;

/// `heapless::Vec::new`: an empty vector.
#[verifier::external_body]
pub(crate) fn u8x32_new() -> (v: heapless::Vec<u8, 32>)
    ensures
        u8x32_items(v) == Seq::<u8>::empty(),
{
    heapless::Vec::new()
}

/// Calls `heapless::Vec::push`, which appends when fewer than 32 items are held;
/// otherwise hands the item back and leaves the vector unchanged.
#[verifier::external_body]
pub(crate) fn u8x32_push(v: &mut heapless::Vec<u8, 32>, x: u8) -> (r: Result<(), u8>)
    ensures
        r is Ok <==> u8x32_items(*old(v)).len() < 32,
        r is Ok ==> u8x32_items(*final(v)) == u8x32_items(*old(v)).push(x),
        r is Err ==> u8x32_items(*final(v)) == u8x32_items(*old(v)),
        r matches Err(y) ==> y == x,
{
    v.push(x)
}

/// Calls `heapless::Vec::extend_from_slice`, which appends all of `other` when it fits;
/// otherwise fails and leaves the vector unchanged.
#[verifier::external_body]
pub(crate) fn u8x32_extend_from_slice(v: &mut heapless::Vec<u8, 32>, other: &[u8]) -> (r: Result<(), ()>)
    ensures
        r is Ok <==> u8x32_items(*old(v)).len() + other@.len() <= 32,
        r is Ok ==> u8x32_items(*final(v)) == u8x32_items(*old(v)) + other@,
        r is Err ==> u8x32_items(*final(v)) == u8x32_items(*old(v)),
{
    v.extend_from_slice(other)
}

/// `heapless::Vec::as_slice`: the items held, never more than 32.
#[verifier::external_body]
pub(crate) fn u8x32_as_slice(v: &heapless::Vec<u8, 32>) -> (r: &[u8])
    ensures
        r@ == u8x32_items(*v),
        r@.len() <= 32,
{
    v.as_slice()
}

// ── heapless::Vec<u8, 128> ──

/// What a `heapless::Vec<u8, 128>` holds, in order.
pub uninterp spec fn u8x128_items(v: heapless::Vec<u8, 128>) -> Seq<u8>;

/// Calls `heapless::Vec::new`: an empty vector.
#[verifier::external_body]
pub(crate) fn u8x128_new() -> (v: heapless::Vec<u8, 128>)
    ensures
        u8x128_items(v) == Seq::<u8>::empty(),
{
    heapless::Vec::new()
}

/// Calls `heapless::Vec::push`, which appends when fewer than 128 items
/// are held, and otherwise hands the item back and leaves the vector unchanged.
#[verifier::external_body]
pub(crate) fn u8x128_push(v: &mut heapless::Vec<u8, 128>, x: u8) -> (r: Result<(), u8>)
    ensures
        r is Ok <==> u8x128_items(*old(v)).len() < 128,
        r is Ok ==> u8x128_items(*final(v)) == u8x128_items(*old(v)).push(x),
        r is Err ==> u8x128_items(*final(v)) == u8x128_items(*old(v)),
        r matches Err(y) ==> y == x,
{
    v.push(x)
}

/// Calls `heapless::Vec::as_slice`: the items held, never more than 128.
#[verifier::external_body]
pub(crate) fn u8x128_as_slice(v: &heapless::Vec<u8, 128>) -> (r: &[u8])
    ensures
        r@ == u8x128_items(*v),
        r@.len() <= 128,
{
    v.as_slice()
}

/// Calls `Clone::clone` on a `heapless::Vec<u8, 128>`, which copies the items.
#[verifier::external_body]
pub(crate) fn u8x128_clone(v: &heapless::Vec<u8, 128>) -> (r: heapless::Vec<u8, 128>)
    ensures
        u8x128_items(r) == u8x128_items(*v),
{
    v.clone()
}

// ── heapless::Vec<u16, 32> ──

/// What a `heapless::Vec<u16, 32>` holds, in order.
pub uninterp spec fn u16x32_items(v: heapless::Vec<u16, 32>) -> Seq<u16>;

/// Calls `heapless::Vec::new`: an empty vector.
#[verifier::external_body]
pub(crate) fn u16x32_new() -> (v: heapless::Vec<u16, 32>)
    ensures
        u16x32_items(v) == Seq::<u16>::empty(),
{
    heapless::Vec::new()
}

/// Calls `heapless::Vec::push`, which appends when fewer than 32 items
/// are held, and otherwise hands the item back and leaves the vector unchanged.
#[verifier::external_body]
pub(crate) fn u16x32_push(v: &mut heapless::Vec<u16, 32>, x: u16) -> (r: Result<(), u16>)
    ensures
        r is Ok <==> u16x32_items(*old(v)).len() < 32,
        r is Ok ==> u16x32_items(*final(v)) == u16x32_items(*old(v)).push(x),
        r is Err ==> u16x32_items(*final(v)) == u16x32_items(*old(v)),
        r matches Err(y) ==> y == x,
{
    v.push(x)
}

/// Calls `heapless::Vec::as_slice`: the items held, never more than 32.
#[verifier::external_body]
pub(crate) fn u16x32_as_slice(v: &heapless::Vec<u16, 32>) -> (r: &[u16])
    ensures
        r@ == u16x32_items(*v),
        r@.len() <= 32,
{
    v.as_slice()
}

// ── heapless::Vec<DiscoverAttributeInfo, 16> ──

/// What a `heapless::Vec<DiscoverAttributeInfo, 16>` holds, in order.
pub uninterp spec fn attr16_items(v: heapless::Vec<DiscoverAttributeInfo, 16>) -> Seq<DiscoverAttributeInfo>;

/// Calls `heapless::Vec::new`: an empty vector.
#[verifier::external_body]
pub(crate) fn attr16_new() -> (v: heapless::Vec<DiscoverAttributeInfo, 16>)
    ensures
        attr16_items(v) == Seq::<DiscoverAttributeInfo>::empty(),
{
    heapless::Vec::new()
}

/// Calls `heapless::Vec::push`, which appends when fewer than 16 items
/// are held, and otherwise hands the item back and leaves the vector unchanged.
#[verifier::external_body]
pub(crate) fn attr16_push(v: &mut heapless::Vec<DiscoverAttributeInfo, 16>, x: DiscoverAttributeInfo) -> (r: Result<(), DiscoverAttributeInfo>)
    ensures
        r is Ok <==> attr16_items(*old(v)).len() < 16,
        r is Ok ==> attr16_items(*final(v)) == attr16_items(*old(v)).push(x),
        r is Err ==> attr16_items(*final(v)) == attr16_items(*old(v)),
        r matches Err(y) ==> y == x,
{
    v.push(x)
}

/// Calls `heapless::Vec::as_slice`: the items held, never more than 16.
#[verifier::external_body]
pub(crate) fn attr16_as_slice(v: &heapless::Vec<DiscoverAttributeInfo, 16>) -> (r: &[DiscoverAttributeInfo])
    ensures
        r@ == attr16_items(*v),
        r@.len() <= 16,
{
    v.as_slice()
}

// ── heapless::Vec<DiscoverAttributeExtendedInfo, 16> ──

/// What a `heapless::Vec<DiscoverAttributeExtendedInfo, 16>` holds, in order.
pub uninterp spec fn ext_attr16_items(v: heapless::Vec<DiscoverAttributeExtendedInfo, 16>) -> Seq<DiscoverAttributeExtendedInfo>;

/// Calls `heapless::Vec::new`: an empty vector.
#[verifier::external_body]
pub(crate) fn ext_attr16_new() -> (v: heapless::Vec<DiscoverAttributeExtendedInfo, 16>)
    ensures
        ext_attr16_items(v) == Seq::<DiscoverAttributeExtendedInfo>::empty(),
{
    heapless::Vec::new()
}

/// Calls `heapless::Vec::push`, which appends when fewer than 16 items
/// are held, and otherwise hands the item back and leaves the vector unchanged.
#[verifier::external_body]
pub(crate) fn ext_attr16_push(v: &mut heapless::Vec<DiscoverAttributeExtendedInfo, 16>, x: DiscoverAttributeExtendedInfo) -> (r: Result<(), DiscoverAttributeExtendedInfo>)
    ensures
        r is Ok <==> ext_attr16_items(*old(v)).len() < 16,
        r is Ok ==> ext_attr16_items(*final(v)) == ext_attr16_items(*old(v)).push(x),
        r is Err ==> ext_attr16_items(*final(v)) == ext_attr16_items(*old(v)),
        r matches Err(y) ==> y == x,
{
    v.push(x)
}

/// Calls `heapless::Vec::as_slice`: the items held, never more than 16.
#[verifier::external_body]
pub(crate) fn ext_attr16_as_slice(v: &heapless::Vec<DiscoverAttributeExtendedInfo, 16>) -> (r: &[DiscoverAttributeExtendedInfo])
    ensures
        r@ == ext_attr16_items(*v),
        r@.len() <= 16,
{
    v.as_slice()
}

} // verus!

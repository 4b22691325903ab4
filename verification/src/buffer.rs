//! Byte buffers of the `elastic_array` crate, which keep short contents inline.
//!
//! Verus does not look inside these buffers.  What one holds is named by a
//! spec function, and every operation that the store performs on a buffer
//! goes through one of the functions below.  Their bodies are not verified:
//! each contract says of one function of the crate (or of `std`) what its
//! source shows.

use elastic_array::{ElasticArray128, ElasticArray32};
use vstd::prelude::*;

verus! {

/// Database value.
pub type DBValue = ElasticArray128<u8>;

/// `elastic_array::ElasticArray32`, the buffer of a key: opaque to Verus.
#[verifier::external_type_specification]
#[verifier::external_body]
#[verifier::reject_recursive_types(T)]
pub struct ExElasticArray32<T>(ElasticArray32<T>);

/// `elastic_array::ElasticArray128`, the buffer of a value: opaque to Verus.
#[verifier::external_type_specification]
#[verifier::external_body]
#[verifier::reject_recursive_types(T)]
pub struct ExElasticArray128<T>(ElasticArray128<T>);

/// The bytes that a key buffer holds, in order: what `Deref::deref` of
/// `ElasticArray32` gives as a slice.
pub uninterp spec fn key_bytes(key: ElasticArray32<u8>) -> Seq<u8>;

/// The bytes that a value buffer holds, in order: what `Deref::deref` of
/// `ElasticArray128` gives as a slice.
pub uninterp spec fn value_bytes(value: ElasticArray128<u8>) -> Seq<u8>;

/// `ElasticArray32::from_slice`: a new buffer that holds the bytes of
/// `bytes`, in the same order.
#[verifier::external_body]
pub(crate) fn key_from_slice(bytes: &[u8]) -> (key: ElasticArray32<u8>)
    ensures
        key_bytes(key) == bytes@,
{
    ElasticArray32::from_slice(bytes)
}

/// `ElasticArray128::from_slice`: a new buffer that holds the bytes of
/// `bytes`, in the same order.
#[verifier::external_body]
pub(crate) fn value_from_slice(bytes: &[u8]) -> (value: ElasticArray128<u8>)
    ensures
        value_bytes(value) == bytes@,
{
    ElasticArray128::from_slice(bytes)
}

/// `ElasticArray128::from_vec`: a buffer that takes `bytes` over as its
/// contents.
#[verifier::external_body]
pub(crate) fn value_from_vec(bytes: Vec<u8>) -> (value: ElasticArray128<u8>)
    ensures
        value_bytes(value) == bytes@,
{
    ElasticArray128::from_vec(bytes)
}

/// `ElasticArray32::into_vec`: a vector of the bytes that the buffer held.
#[verifier::external_body]
pub(crate) fn key_into_vec(key: ElasticArray32<u8>) -> (bytes: Vec<u8>)
    ensures
        bytes@ == key_bytes(key),
{
    key.into_vec()
}

/// `Deref::deref` of `ElasticArray32`: the bytes that the buffer holds, as a
/// slice.
#[verifier::external_body]
pub(crate) fn key_as_slice(key: &ElasticArray32<u8>) -> (bytes: &[u8])
    ensures
        bytes@ == key_bytes(*key),
{
    std::ops::Deref::deref(key)
}

/// `Deref::deref` of `ElasticArray128`: the bytes that the buffer holds, as
/// a slice.
#[verifier::external_body]
pub(crate) fn value_as_slice(value: &ElasticArray128<u8>) -> (bytes: &[u8])
    ensures
        bytes@ == value_bytes(*value),
{
    std::ops::Deref::deref(value)
}

/// `Clone::clone` of `ElasticArray32`: a buffer that holds the same bytes.
#[verifier::external_body]
pub(crate) fn key_clone(key: &ElasticArray32<u8>) -> (copy: ElasticArray32<u8>)
    ensures
        key_bytes(copy) == key_bytes(*key),
{
    key.clone()
}

/// `Clone::clone` of `ElasticArray128`: a buffer that holds the same bytes.
#[verifier::external_body]
pub(crate) fn value_clone(value: &ElasticArray128<u8>) -> (copy: ElasticArray128<u8>)
    ensures
        value_bytes(copy) == value_bytes(*value),
{
    value.clone()
}

/// `Vec::into_boxed_slice` of `std`: a boxed slice of the same bytes.
#[verifier::external_body]
pub(crate) fn into_boxed(bytes: Vec<u8>) -> (boxed: Box<[u8]>)
    ensures
        boxed@ == bytes@,
{
    bytes.into_boxed_slice()
}

} // verus!

//! The short sequences that calls and replies carry, held in a `smallvec`
//! with room for four items before it spills to the heap.
use crate::json::{json_views, Json, JsonValue};
use crate::status::{StatKey, StatusKey};
use vstd::prelude::*;

verus! {

/// A short sequence, stored inline while it holds at most four items.
#[verifier::external_body]
#[verifier::reject_recursive_types(T)]
#[derive(Debug)]
pub struct SmallVec<T> {
    inner: smallvec::SmallVec<[T; 4]>,
}

/// The strings that a `SmallVec<String>` holds, in order.
pub uninterp spec fn string_items(v: SmallVec<String>) -> Seq<Seq<char>>;

/// The keys that a `SmallVec<StatusKey>` holds, in order.
pub uninterp spec fn status_key_items(v: SmallVec<StatusKey>) -> Seq<StatusKey>;

/// The keys that a `SmallVec<StatKey>` holds, in order.
pub uninterp spec fn stat_key_items(v: SmallVec<StatKey>) -> Seq<StatKey>;

/// The models of the JSON values that a `SmallVec<JsonValue>` holds, in order.
pub uninterp spec fn json_items(v: SmallVec<JsonValue>) -> Seq<Json>;

/// The models of a sequence of strings.
pub open spec fn string_views(s: Seq<String>) -> Seq<Seq<char>> {
    Seq::new(s.len(), |i: int| s[i]@)
}

impl SmallVec<String> {
    /// Calls `smallvec::SmallVec::from_vec`, which keeps the items of the
    /// vector in their order.
    #[verifier::external_body]
    pub fn from_vec(v: Vec<String>) -> (r: Self)
        ensures
            string_items(r) == string_views(v@),
    {
        SmallVec { inner: smallvec::SmallVec::from_vec(v) }
    }

    /// Calls `smallvec::SmallVec::as_slice`, which shows the items in their order.
    #[verifier::external_body]
    pub fn as_slice(&self) -> (r: &[String])
        ensures
            string_views(r@) == string_items(*self),
    {
        self.inner.as_slice()
    }
}

impl SmallVec<StatusKey> {
    /// Calls `smallvec::SmallVec::from_vec`, which keeps the items of the
    /// vector in their order.
    #[verifier::external_body]
    pub fn from_vec(v: Vec<StatusKey>) -> (r: Self)
        ensures
            status_key_items(r) == v@,
    {
        SmallVec { inner: smallvec::SmallVec::from_vec(v) }
    }

    /// Calls `smallvec::SmallVec::as_slice`, which shows the items in their order.
    #[verifier::external_body]
    pub fn as_slice(&self) -> (r: &[StatusKey])
        ensures
            r@ == status_key_items(*self),
    {
        self.inner.as_slice()
    }
}

impl SmallVec<StatKey> {
    /// Calls `smallvec::SmallVec::from_vec`, which keeps the items of the
    /// vector in their order.
    #[verifier::external_body]
    pub fn from_vec(v: Vec<StatKey>) -> (r: Self)
        ensures
            stat_key_items(r) == v@,
    {
        SmallVec { inner: smallvec::SmallVec::from_vec(v) }
    }

    /// Calls `smallvec::SmallVec::as_slice`, which shows the items in their order.
    #[verifier::external_body]
    pub fn as_slice(&self) -> (r: &[StatKey])
        ensures
            r@ == stat_key_items(*self),
    {
        self.inner.as_slice()
    }
}

impl SmallVec<JsonValue> {
    /// Calls `smallvec::SmallVec::from_vec`, which keeps the items of the
    /// vector in their order.
    #[verifier::external_body]
    pub fn from_vec(v: Vec<JsonValue>) -> (r: Self)
        ensures
            json_items(r) == json_views(v@),
    {
        SmallVec { inner: smallvec::SmallVec::from_vec(v) }
    }

    /// Calls `smallvec::SmallVec::into_vec`, which hands out the items in their order.
    #[verifier::external_body]
    pub fn into_vec(self) -> (r: Vec<JsonValue>)
        ensures
            json_views(r@) == json_items(self),
    {
        self.inner.into_vec()
    }
}

} // verus!

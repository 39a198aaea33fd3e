//! The limits that a request is held to.

use vstd::prelude::*;

verus! {

/// The views of a sequence of texts, in order.
pub open spec fn texts(v: Seq<String>) -> Seq<Seq<char>> {
    v.map_values(|s: String| s@)
}

/// The view of a text that may be missing.
pub open spec fn text_of(s: Option<String>) -> Option<Seq<char>> {
    match s {
        Some(t) => Some(t@),
        None => None,
    }
}

/// What a [`LimitPolicy`] holds.
pub struct LimitPolicyView {
    /// The most bytes that the items of one request may bring together.
    pub max_aggregate_bytes: u64,
    /// The most items of one request that are taken up for storing.
    pub max_item_count: usize,
    /// The content types that are stored.
    pub accepted_types: Seq<Seq<char>>,
    /// The form field that an item must come under; any field where `None`.
    pub required_field_name: Option<Seq<char>>,
}

/// The limits of one endpoint. It is a record: nothing in it changes, and
/// every other part of the library reads it by reference.
#[derive(Clone, Debug, PartialEq, Eq)]
pub struct LimitPolicy {
    max_aggregate_bytes: u64,
    max_item_count: usize,
    accepted_types: Vec<String>,
    required_field_name: Option<String>,
}

impl View for LimitPolicy {
    type V = LimitPolicyView;

    closed spec fn view(&self) -> LimitPolicyView {
        LimitPolicyView {
            max_aggregate_bytes: self.max_aggregate_bytes,
            max_item_count: self.max_item_count,
            accepted_types: texts(self.accepted_types@),
            required_field_name: text_of(self.required_field_name),
        }
    }
}

impl LimitPolicy {
    /// A policy with the given limits.
    pub fn new(
        max_aggregate_bytes: u64,
        max_item_count: usize,
        accepted_types: Vec<String>,
        required_field_name: Option<String>,
    ) -> (policy: LimitPolicy)
        ensures
            policy@ == (LimitPolicyView {
                max_aggregate_bytes,
                max_item_count,
                accepted_types: texts(accepted_types@),
                required_field_name: text_of(required_field_name),
            }),
    {
        LimitPolicy { max_aggregate_bytes, max_item_count, accepted_types, required_field_name }
    }

    /// The most bytes that the items of one request may bring together.
    pub fn max_aggregate_bytes(&self) -> (n: u64)
        ensures
            n == self@.max_aggregate_bytes,
    {
        self.max_aggregate_bytes
    }

    /// The most items of one request that are taken up for storing.
    pub fn max_item_count(&self) -> (n: usize)
        ensures
            n == self@.max_item_count,
    {
        self.max_item_count
    }

    /// The content types that are stored.
    pub fn accepted_types(&self) -> (types: &Vec<String>)
        ensures
            texts(types@) == self@.accepted_types,
    {
        &self.accepted_types
    }

    /// The form field that an item must come under, if one is required.
    pub fn required_field_name(&self) -> (name: &Option<String>)
        ensures
            text_of(*name) == self@.required_field_name,
    {
        &self.required_field_name
    }
}

} // verus!

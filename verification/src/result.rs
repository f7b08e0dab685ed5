//! The [`CheckResult`] a check body returns.

use vstd::prelude::*;
use vstd::string::*;

use crate::status::Status;
use crate::string_map::{
    insert_all, last_value, lemma_insert_all_lookup, lemma_last_value_absent, lemma_last_value_at, lookup,
    pairs_view, StringMap,
};

verus! {

/// The outcome a check body returns: a status, an optional explanation and
/// string details kept in ascending key order.
#[derive(Debug, Clone, PartialEq, Eq)]
pub struct CheckResult {
    /// The health this body is reporting.
    pub status: Status,
    /// An optional human-readable explanation (set for degraded/down).
    pub message: Option<String>,
    /// String key/value detail.
    pub details: StringMap,
}

/// `message` holds exactly the text `m`.
pub open spec fn message_is(message: Option<String>, m: Seq<char>) -> bool {
    message matches Some(s) && s@ == m
}

/// The details that `pairs` give, inserted in order (a repeated key keeps its
/// last value).
pub open spec fn details_of(pairs: Seq<(String, String)>) -> Seq<(Seq<char>, Seq<char>)> {
    insert_all(Seq::empty(), pairs_view(pairs))
}

/// Details keep every key that is given, with the value of the last pair that
/// has it, and no other key: a key finds the value of its last pair, and a key
/// that no pair has finds nothing.
pub proof fn lemma_details_of_lookup(pairs: Seq<(String, String)>, k: Seq<char>)
    ensures
        lookup(details_of(pairs), k) == last_value(pairs_view(pairs), k),
        forall|i: int|
            0 <= i < pairs.len() && pairs[i].0@ == k && (forall|j: int| i < j < pairs.len() ==> #[trigger] pairs[j].0@ != k)
                ==> lookup(details_of(pairs), k) == Some(pairs[i].1@),
        (forall|i: int| 0 <= i < pairs.len() ==> #[trigger] pairs[i].0@ != k) ==> lookup(details_of(pairs), k) is None,
{
    let ps = pairs_view(pairs);
    lemma_insert_all_lookup(Seq::empty(), ps, k);
    assert forall|i: int|
        0 <= i < pairs.len() && pairs[i].0@ == k && (forall|j: int| i < j < pairs.len() ==> #[trigger] pairs[j].0@ != k)
            implies lookup(details_of(pairs), k) == Some(pairs[i].1@) by {
        assert(ps[i] == (pairs[i].0@, pairs[i].1@));
        assert forall|j: int| i < j < ps.len() implies #[trigger] ps[j].0 != ps[i].0 by {
            assert(ps[j].0 == pairs[j].0@);
        }
        lemma_last_value_at(ps, i);
    }
    if forall|i: int| 0 <= i < pairs.len() ==> #[trigger] pairs[i].0@ != k {
        assert forall|i: int| 0 <= i < ps.len() implies #[trigger] ps[i].0 != k by {
            assert(ps[i].0 == pairs[i].0@);
        }
        lemma_last_value_absent(ps, k);
    }
}

fn into_details(details: Vec<(String, String)>) -> (r: StringMap)
    ensures
        r@ == details_of(details@),
{
    StringMap::from_pairs(details)
}

impl CheckResult {
    /// The dependency is fully operational, with no extra detail.
    pub fn up() -> (r: CheckResult)
        ensures
            r.status == Status::Up,
            r.message is None,
            r.details@.len() == 0,
    {
        CheckResult { status: Status::Up, message: None, details: StringMap::new() }
    }

    /// The dependency is fully operational, carrying some detail.
    pub fn up_with(details: Vec<(String, String)>) -> (r: CheckResult)
        ensures
            r.status == Status::Up,
            r.message is None,
            r.details@ == details_of(details@),
    {
        CheckResult { status: Status::Up, message: None, details: into_details(details) }
    }

    /// The dependency is impaired but the service can still serve.
    pub fn degraded(message: &str) -> (r: CheckResult)
        ensures
            r.status == Status::Degraded,
            message_is(r.message, message@),
            r.details@.len() == 0,
    {
        CheckResult {
            status: Status::Degraded,
            message: Some(String::from_str(message)),
            details: StringMap::new(),
        }
    }

    /// The dependency is impaired, carrying some detail.
    pub fn degraded_with(message: &str, details: Vec<(String, String)>) -> (r: CheckResult)
        ensures
            r.status == Status::Degraded,
            message_is(r.message, message@),
            r.details@ == details_of(details@),
    {
        CheckResult {
            status: Status::Degraded,
            message: Some(String::from_str(message)),
            details: into_details(details),
        }
    }

    /// The dependency is unusable.
    pub fn down(message: &str) -> (r: CheckResult)
        ensures
            r.status == Status::Down,
            message_is(r.message, message@),
            r.details@.len() == 0,
    {
        CheckResult {
            status: Status::Down,
            message: Some(String::from_str(message)),
            details: StringMap::new(),
        }
    }

    /// The dependency is unusable, carrying some detail.
    pub fn down_with(message: &str, details: Vec<(String, String)>) -> (r: CheckResult)
        ensures
            r.status == Status::Down,
            message_is(r.message, message@),
            r.details@ == details_of(details@),
    {
        CheckResult {
            status: Status::Down,
            message: Some(String::from_str(message)),
            details: into_details(details),
        }
    }
}

} // verus!

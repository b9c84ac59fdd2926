//! Spam-filter training through the server's administration API: the
//! endpoints it is sent to and the tally of a batch.
use vstd::prelude::*;
use crate::error::AppError;
use crate::text::{concat2, concat3, trim_end_char, trim_end_matches};

verus! {

/// Outcome of training a batch of messages.
#[derive(Debug, Clone, Copy, PartialEq, Eq, Structural)]
pub struct TrainResult {
    pub total: usize,
    pub success: usize,
    pub failed: usize,
}

/// Number of `true` entries.
pub open spec fn count_true(s: Seq<bool>) -> nat
    decreases s.len(),
{
    if s.len() == 0 {
        0
    } else {
        count_true(s.drop_last()) + if s.last() { 1nat } else { 0nat }
    }
}

proof fn lemma_count_true_bounded(s: Seq<bool>)
    ensures
        count_true(s) <= s.len(),
    decreases s.len(),
{
    if s.len() > 0 {
        lemma_count_true_bounded(s.drop_last());
    }
}

impl TrainResult {
    /// The tally of a batch whose `i`-th message was trained iff `outcomes[i]`.
    pub fn from_outcomes(outcomes: &[bool]) -> (r: TrainResult)
        ensures
            r.total == outcomes@.len(),
            r.success == count_true(outcomes@),
            r.failed == outcomes@.len() - count_true(outcomes@),
            r.success + r.failed == r.total,
    {
        let mut success: usize = 0;
        let mut failed: usize = 0;
        let mut i: usize = 0;
        while i < outcomes.len()
            invariant
                i <= outcomes@.len(),
                success == count_true(outcomes@.take(i as int)),
                success + failed == i,
            decreases outcomes.len() - i,
        {
            proof {
                assert(outcomes@.take(i + 1).drop_last() =~= outcomes@.take(i as int));
            }
            if outcomes[i] {
                success = success + 1;
            } else {
                failed = failed + 1;
            }
            i = i + 1;
        }
        proof {
            assert(outcomes@.take(outcomes@.len() as int) =~= outcomes@);
            lemma_count_true_bounded(outcomes@);
        }
        TrainResult { total: outcomes.len(), success, failed }
    }
}

/// The base address of the administration API: the server address without
/// trailing slashes.
pub fn admin_base_url(base_url: &str) -> (r: String)
    ensures
        r@ == trim_end_char(base_url@, '/'),
{
    trim_end_matches(base_url, '/')
}

/// The path that trains one message as spam or as ham.
pub open spec fn train_endpoint(is_spam: bool) -> Seq<char> {
    if is_spam {
        "spam-filter/upload/spam"@
    } else {
        "spam-filter/upload/ham"@
    }
}

/// The address that trains one message as spam (or as ham) on the server
/// whose administration API is at `base_url`.
pub fn train_url(base_url: &str, is_spam: bool) -> (r: String)
    ensures
        r@ == base_url@ + "/api/"@ + train_endpoint(is_spam),
{
    let endpoint = if is_spam {
        "spam-filter/upload/spam"
    } else {
        "spam-filter/upload/ham"
    };
    concat3(base_url, "/api/", endpoint)
}


/// The error for a training request that the administration API refused:
/// its HTTP status (as displayed) and the response body, or `no body` when
/// the body could not be read.
pub fn admin_status_error(status: &str, body: Option<String>) -> (e: AppError)
    ensures
        e matches AppError::JmapRequest(m) && m@ == "Admin API returned "@ + status@ + ": "@ + match body {
            Some(b) => b@,
            None => "no body"@,
        },
{
    let head = concat3("Admin API returned ", status, ": ");
    let text = match body {
        Some(b) => concat2(head.as_str(), b.as_str()),
        None => concat2(head.as_str(), "no body"),
    };
    AppError::JmapRequest(text)
}

} // verus!

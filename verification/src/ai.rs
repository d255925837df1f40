//! Decisions around the chat-completions call: what reply is kept, and which
//! failures are worth a second try.
use vstd::prelude::*;
use crate::text::{contains, contains_seq, trim, trimmed};

verus! {

broadcast use vstd::string::group_string_axioms;

/// A failure whose message holds this was refused by the gateway's filter.
pub const BLOCKED_MARK: &'static str = "BLOCKED";

/// A failure whose message holds this was refused by a guardrail.
pub const GUARDRAIL_MARK: &'static str = "guardrail";

/// Pause before the second try, in milliseconds.
pub const RETRY_DELAY_MS: u64 = 500;

/// Whether a failed call is tried once more: not when the content was refused.
pub open spec fn retries(err: Seq<char>) -> bool {
    !contains_seq(err, BLOCKED_MARK@) && !contains_seq(err, GUARDRAIL_MARK@)
}

/// A failure is tried again exactly when its message holds neither
/// "BLOCKED" nor "guardrail"; nothing else about the message matters.
pub proof fn lemma_retry_policy(err: Seq<char>)
    ensures
        retries(err) == !(contains_seq(err, "BLOCKED"@) || contains_seq(err, "guardrail"@)),
{
}

/// Whether the call that failed with `err` is tried a second time.
pub fn should_retry(err: &str) -> (r: bool)
    ensures
        r == retries(err@),
        r == !(contains_seq(err@, "BLOCKED"@) || contains_seq(err@, "guardrail"@)),
{
    proof {
        lemma_retry_policy(err@);
    }
    !(contains(err, BLOCKED_MARK) || contains(err, GUARDRAIL_MARK))
}

/// The text that Fennec keeps of the model's answer: the first choice,
/// without surrounding white space.
pub fn reply_text(choices: &Vec<String>) -> (r: String)
    requires
        choices@.len() > 0,
    ensures
        r@ == trimmed(choices@[0]@),
{
    trim(choices[0].as_str()).to_string()
}

/// The value of the `Authorization` header for a key.
pub fn bearer(key: &str) -> (r: String)
    ensures
        r@ == "Bearer "@ + key@,
{
    String::from_str("Bearer ").concat(key)
}

/// What to do with the result of a call to the model.
pub enum AttemptOutcome {
    /// Hand this result to the caller.
    Return(Result<String, String>),
    /// Wait this many milliseconds, then call once more.
    RetryAfterMs(u64),
}

/// After a call: a first call that failed for a reason other than a refusal
/// is tried again after a pause; any other result is final. So the model is
/// called at most twice.
pub fn after_attempt(first: bool, result: Result<String, String>) -> (o: AttemptOutcome)
    ensures
        match result {
            Err(e) => if first && retries(e@) {
                o matches AttemptOutcome::RetryAfterMs(ms) && ms == RETRY_DELAY_MS
            } else {
                o matches AttemptOutcome::Return(Err(f)) && f@ == e@
            },
            Ok(t) => o matches AttemptOutcome::Return(Ok(u)) && u@ == t@,
        },
        !first ==> o is Return,
        first && result is Err && !contains_seq(result->Err_0@, "BLOCKED"@) && !contains_seq(
            result->Err_0@,
            "guardrail"@,
        ) ==> (o matches AttemptOutcome::RetryAfterMs(ms) && ms == 500),
{
    proof {
        if result is Err {
            lemma_retry_policy(result->Err_0@);
        }
    }
    match result {
        Ok(t) => AttemptOutcome::Return(Ok(t)),
        Err(e) => {
            if first && should_retry(e.as_str()) {
                AttemptOutcome::RetryAfterMs(RETRY_DELAY_MS)
            } else {
                AttemptOutcome::Return(Err(e))
            }
        },
    }
}

} // verus!

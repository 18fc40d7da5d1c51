//! The rules of the embedding client: the request URL, the retry policy
//! for rate-limited requests, and the checks on the returned vector.
//!
//! Sending requests and sleeping between attempts is left to the caller,
//! which reports what happened to `next_step` and does what it answers.

use vstd::prelude::*;
use crate::setup::{trim_end_slashes};
use crate::text::{chars_of, copy_range, push_all, push_str, string_of};

verus! {

/// `base_url` without trailing `/` characters.
pub fn sanitize_base_url(base_url: &str) -> (r: String)
    ensures
        r@ == trim_end_slashes(base_url@),
{
    let v = chars_of(base_url);
    let mut i = v.len();
    assert(v@.take(i as int) =~= v@);
    while i > 0 && v[i - 1] == '/'
        invariant
            0 <= i <= v.len(),
            trim_end_slashes(v@) == trim_end_slashes(v@.take(i as int)),
        decreases i,
    {
        assert(v@.take(i as int).drop_last() =~= v@.take(i - 1));
        i = i - 1;
    }
    let r = copy_range(&v, 0, i);
    assert(r@ =~= v@.take(i as int));
    string_of(&r)
}

/// The embeddings endpoint under a (sanitized) base URL.
pub fn embeddings_url(base_url: &str) -> (r: String)
    ensures
        r@ == base_url@ + "/embeddings"@,
{
    let mut out: Vec<char> = Vec::new();
    push_str(&mut out, base_url);
    push_str(&mut out, "/embeddings");
    string_of(&out)
}

/// Seconds waited before the first retry of a rate-limited request.
pub const INITIAL_RETRY_DELAY_SECS: u64 = 5;

/// Most requests sent for one embedding.
pub const MAX_ATTEMPTS: u32 = 5;

/// Where a request for one embedding stands: how many attempts came before
/// the current one, and how long to wait if it is rate-limited.
#[derive(Debug, Clone, Copy, PartialEq, Eq, Structural)]
pub struct RetryState {
    pub attempt: u32,
    pub delay_secs: u64,
}

/// What happened to one attempt.
#[derive(Debug, Clone, Copy, PartialEq, Eq, Structural)]
pub enum EmbedEvent {
    /// The request could not be sent.
    SendFailed,
    /// The API answered 429 Too Many Requests.
    RateLimited,
    /// The API answered another unsuccessful status.
    HttpError { status: u16 },
    /// The body could not be read as an embedding response.
    BadBody,
    /// The response held no embedding.
    EmptyData,
    /// The response held an embedding.
    Embedding,
}

/// Why no embedding was obtained.
#[derive(Debug, Clone, Copy, PartialEq, Eq, Structural)]
pub enum EmbedFailure {
    RequestFailed,
    /// Still rate-limited after this many attempts.
    RateLimited { attempts: u32 },
    Status { status: u16 },
    BadResponse,
    EmptyResponse,
}

/// What to do after an attempt.
#[derive(Debug, Clone, Copy, PartialEq, Eq, Structural)]
pub enum EmbedStep {
    /// Wait `secs` seconds, then try again from `next`.
    Retry { secs: u64, next: RetryState },
    /// Give up with this failure.
    Fail(EmbedFailure),
    /// Use the first embedding of the response.
    Done,
}

/// The state before the first attempt.
pub fn initial_retry_state() -> (r: RetryState)
    ensures
        r == (RetryState { attempt: 0, delay_secs: INITIAL_RETRY_DELAY_SECS }),
{
    RetryState { attempt: 0, delay_secs: INITIAL_RETRY_DELAY_SECS }
}

/// What `next_step` answers.
pub open spec fn spec_next_step(s: RetryState, e: EmbedEvent) -> EmbedStep {
    match e {
        EmbedEvent::SendFailed => EmbedStep::Fail(EmbedFailure::RequestFailed),
        EmbedEvent::RateLimited => if s.attempt + 1 < MAX_ATTEMPTS {
            EmbedStep::Retry {
                secs: s.delay_secs,
                next: RetryState { attempt: (s.attempt + 1) as u32, delay_secs: (s.delay_secs * 2) as u64 },
            }
        } else {
            EmbedStep::Fail(EmbedFailure::RateLimited { attempts: (s.attempt + 1) as u32 })
        },
        EmbedEvent::HttpError { status } => EmbedStep::Fail(EmbedFailure::Status { status }),
        EmbedEvent::BadBody => EmbedStep::Fail(EmbedFailure::BadResponse),
        EmbedEvent::EmptyData => EmbedStep::Fail(EmbedFailure::EmptyResponse),
        EmbedEvent::Embedding => EmbedStep::Done,
    }
}

/// A state the retry loop can be in: fewer than the maximum attempts made,
/// and a delay that doubled from the initial one at each retry.
pub open spec fn reachable(s: RetryState) -> bool {
    s.attempt < MAX_ATTEMPTS && s.delay_secs == INITIAL_RETRY_DELAY_SECS * vstd::arithmetic::power2::pow2(
        s.attempt as nat,
    )
}

/// Decides what follows an attempt: a rate-limited attempt is retried after
/// the current delay, which then doubles, unless it was the last allowed
/// attempt; every other failure ends the request at once.
pub fn next_step(state: RetryState, event: EmbedEvent) -> (r: EmbedStep)
    requires
        reachable(state),
    ensures
        r == spec_next_step(state, event),
{
    match event {
        EmbedEvent::SendFailed => EmbedStep::Fail(EmbedFailure::RequestFailed),
        EmbedEvent::RateLimited => {
            if state.attempt + 1 < MAX_ATTEMPTS {
                proof {
                    vstd::arithmetic::power2::lemma2_to64();
                    assert(state.attempt <= 3);
                    assert(state.delay_secs <= 40) by {
                        vstd::arithmetic::power2::lemma_pow2_strictly_increases(state.attempt as nat, 4);
                    }
                }
                EmbedStep::Retry {
                    secs: state.delay_secs,
                    next: RetryState { attempt: state.attempt + 1, delay_secs: state.delay_secs * 2 },
                }
            } else {
                EmbedStep::Fail(EmbedFailure::RateLimited { attempts: state.attempt + 1 })
            }
        },
        EmbedEvent::HttpError { status } => EmbedStep::Fail(EmbedFailure::Status { status }),
        EmbedEvent::BadBody => EmbedStep::Fail(EmbedFailure::BadResponse),
        EmbedEvent::EmptyData => EmbedStep::Fail(EmbedFailure::EmptyResponse),
        EmbedEvent::Embedding => EmbedStep::Done,
    }
}

/// Law: the retry loop only moves between reachable states, starting from
/// the initial one; each retry waits the current delay, counts one more
/// attempt, and doubles the delay (5, 10, 20 and 40 seconds), and the fifth
/// rate-limited attempt ends the request.
pub proof fn law_retries_are_bounded(s: RetryState, e: EmbedEvent)
    requires
        reachable(s),
    ensures
        reachable(RetryState { attempt: 0, delay_secs: INITIAL_RETRY_DELAY_SECS }),
        spec_next_step(s, e) matches EmbedStep::Retry { secs, next } ==> {
            &&& reachable(next)
            &&& next.attempt == s.attempt + 1
            &&& secs == s.delay_secs
            &&& next.delay_secs == 2 * s.delay_secs
        },
        s.attempt == MAX_ATTEMPTS - 1 ==> !(spec_next_step(s, e) is Retry),
        e != EmbedEvent::RateLimited ==> !(spec_next_step(s, e) is Retry),
{
    vstd::arithmetic::power2::lemma2_to64();
    if s.attempt + 1 < MAX_ATTEMPTS {
        vstd::arithmetic::power2::lemma_pow2_unfold((s.attempt + 1) as nat);
    }
}

/// Why a returned vector is not usable.
#[derive(Debug, Clone, Copy, PartialEq, Eq, Structural)]
pub enum VectorError {
    /// The vector does not have the configured dimension.
    WrongDimension { expected: usize, got: usize },
    /// The API returned a vector with no component.
    Empty,
}

/// Checks a returned vector's length against the configured dimension.
pub fn check_vector_len(len: usize, expected: usize) -> (r: Result<(), VectorError>)
    ensures
        r == (if len == expected {
            Ok(())
        } else {
            Err(VectorError::WrongDimension { expected, got: len })
        }),
{
    if len != expected {
        Err(VectorError::WrongDimension { expected, got: len })
    } else {
        Ok(())
    }
}

/// The dimension a probe vector shows: its length, which must not be zero.
pub fn detected_dimension(len: usize) -> (r: Result<usize, VectorError>)
    ensures
        r == (if len == 0 {
            Err(VectorError::Empty)
        } else {
            Ok(len)
        }),
{
    if len == 0 {
        Err(VectorError::Empty)
    } else {
        Ok(len)
    }
}

/// The value of the `Authorization` header for an API key.
pub fn bearer_header(api_key: &str) -> (r: String)
    ensures
        r@ == "Bearer "@ + api_key@,
{
    let mut out: Vec<char> = Vec::new();
    push_str(&mut out, "Bearer ");
    push_str(&mut out, api_key);
    string_of(&out)
}

} // verus!

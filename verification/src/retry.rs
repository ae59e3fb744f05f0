//! The send retry policy: a rate-limited send is retried after a fixed
//! backoff, a bounded number of times; any other response concludes the
//! exchange at once.
//!
//! The caller performing the HTTP exchange classifies each response as a
//! `ChatResponse` and asks `retry_decision` what to do next, so the policy is
//! decided here and testable in isolation.

use vstd::prelude::*;

verus! {

/// How many times a rate-limited send is retried before failing.
pub const SEND_RETRY_LIMIT: u32 = 3;

/// The backoff before each retry, in milliseconds.
pub const SEND_RETRY_DELAY_MS: u64 = 1500;

/// How the chat destination answered one send attempt.
#[derive(Clone, Copy, Debug, PartialEq, Eq)]
pub enum ChatResponse {
    /// The destination signalled rate limiting.
    RateLimited,
    /// The destination accepted the message.
    Delivered,
    /// Any other failure.
    Failed,
}

/// What the sender must do after a response.
#[derive(Clone, Copy, Debug, PartialEq, Eq)]
pub enum SendStep {
    /// Wait the given delay, then send the same message again.
    Retry { delay_ms: u64 },
    /// Stop retrying and surface the response as the outcome.
    Conclude,
}

/// Decides the next step after a response. `attempt` counts the retries
/// already made for this message, starting at zero: a rate-limited response
/// is retried after the fixed backoff while fewer than `SEND_RETRY_LIMIT`
/// retries have been made, and every other case concludes the exchange.
pub fn retry_decision(attempt: u32, response: ChatResponse) -> (r: SendStep)
    ensures
        r == (if response is RateLimited && attempt < SEND_RETRY_LIMIT {
            SendStep::Retry { delay_ms: SEND_RETRY_DELAY_MS }
        } else {
            SendStep::Conclude
        }),
{
    match response {
        ChatResponse::RateLimited => {
            if attempt < SEND_RETRY_LIMIT {
                SendStep::Retry { delay_ms: SEND_RETRY_DELAY_MS }
            } else {
                SendStep::Conclude
            }
        },
        _ => SendStep::Conclude,
    }
}

/// What one message's whole send session came to.
#[derive(Clone, Copy, Debug, PartialEq, Eq)]
pub struct SendReport {
    /// How many backoff delays were taken.
    pub delays: u32,
    /// Whether the message was delivered in the end.
    pub delivered: bool,
}

/// The session outcome for a given stream of responses, starting with
/// `attempt` retries already made: the number of backoff delays taken and
/// whether the message was delivered; `None` when the stream ends before the
/// exchange concluded.
pub open spec fn session_outcome(responses: Seq<ChatResponse>, attempt: nat) -> Option<(int, bool)>
    decreases responses.len(),
{
    if responses.len() == 0 {
        Option::None
    } else {
        match responses[0] {
            ChatResponse::Delivered => Option::Some((0int, true)),
            ChatResponse::Failed => Option::Some((0int, false)),
            ChatResponse::RateLimited => {
                if attempt < SEND_RETRY_LIMIT as nat {
                    match session_outcome(responses.skip(1), attempt + 1) {
                        Option::None => Option::None,
                        Option::Some(p) => Option::Some((p.0 + 1, p.1)),
                    }
                } else {
                    Option::Some((0int, false))
                }
            },
        }
    }
}

fn simulate_from(responses: &Vec<ChatResponse>, k: usize, attempt: u32) -> (r: Option<SendReport>)
    requires
        k <= responses@.len(),
        attempt <= SEND_RETRY_LIMIT,
    ensures
        match r {
            Option::None => session_outcome(responses@.skip(k as int), attempt as nat) is None,
            Option::Some(rep) => session_outcome(responses@.skip(k as int), attempt as nat)
                == Option::Some((rep.delays as int, rep.delivered)) && rep.delays
                <= SEND_RETRY_LIMIT - attempt,
        },
    decreases responses@.len() - k,
{
    let ghost tail = responses@.skip(k as int);
    if k == responses.len() {
        proof {
            assert(tail.len() == 0);
        }
        return Option::None;
    }
    let resp = responses[k];
    proof {
        assert(tail[0] == responses@[k as int]);
        assert(tail.skip(1) =~= responses@.skip(k + 1));
    }
    match retry_decision(attempt, resp) {
        SendStep::Retry { delay_ms: _ } => {
            match simulate_from(responses, k + 1, attempt + 1) {
                Option::None => Option::None,
                Option::Some(rep) => Option::Some(
                    SendReport { delays: rep.delays + 1, delivered: rep.delivered },
                ),
            }
        },
        SendStep::Conclude => {
            match resp {
                ChatResponse::Delivered => Option::Some(
                    SendReport { delays: 0, delivered: true },
                ),
                _ => Option::Some(SendReport { delays: 0, delivered: false }),
            }
        },
    }
}

/// Replays the retry policy against a stream of responses: the first response
/// answers the first attempt, and each retry consumes the next one. Reports
/// the backoff delays taken and the final outcome, or `None` when the stream
/// ends before the exchange concluded.
pub fn simulate_send(responses: &Vec<ChatResponse>) -> (r: Option<SendReport>)
    ensures
        match r {
            Option::None => session_outcome(responses@, 0) is None,
            Option::Some(rep) => session_outcome(responses@, 0) == Option::Some(
                (rep.delays as int, rep.delivered),
            ),
        },
{
    proof {
        assert(responses@.skip(0) =~= responses@);
    }
    simulate_from(responses, 0, 0)
}

} // verus!

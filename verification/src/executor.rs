//! The request execution protocol.
//!
//! A call issues a GET and inspects the status code: `202 Accepted` means
//! the result is not ready, and the caller must suspend for one fixed
//! interval and issue the identical request again — without bound.  Any
//! other status completes the call, and the response body goes to the
//! normalizer.  A transport failure is surfaced at once and never retried.
//!
//! The decisions of the protocol live here as verified functions; the code
//! that performs the GET and the suspension drives them from outside.

use crate::errors::BggError;
use vstd::prelude::*;

verus! {

#[verifier::external_type_specification]
#[verifier::external_body]
pub struct ExValue(serde_json::Value);

/// The structured value the normalizer produces for a body text.  It
/// depends on the characters of the body alone.
pub uninterp spec fn json_of(s: Seq<char>) -> serde_json::Value;

/// Relies on `xmltojson::to_json`: it converts any input string into a
/// structured value that depends on that string alone and, in the version
/// used here, never reports an error — unparseable input yields a value of
/// what could be read.
#[verifier::external_body]
fn xml_to_json(data: &str) -> (r: Option<serde_json::Value>)
    ensures
        r == Some(json_of(data@)),
{
    match xmltojson::to_json(data) {
        Ok(v) => Some(v),
        Err(_) => None,
    }
}

/// Hands a completed response body to the normalizer and returns its
/// structured value.  A body the normalizer rejects would become a
/// conversion error; the normalizer in use accepts every body, so this
/// succeeds.
pub fn normalize_body(data: &str) -> (r: Result<serde_json::Value, BggError>)
    ensures
        r == Result::<serde_json::Value, BggError>::Ok(json_of(data@)),
{
    match xml_to_json(data) {
        Some(v) => Ok(v),
        None => Err(BggError::Conversion),
    }
}

/// What the external normalizer reported for one completed response body:
/// a structured value, or a rejection.
#[derive(Debug)]
pub enum ParseOutcome {
    Parsed(serde_json::Value),
    Malformed,
}

/// Maps the normalizer's report onto the call's result: a structured value
/// passes through, a rejected body becomes a conversion error, distinct
/// from any transport error.
pub fn settle(outcome: ParseOutcome) -> (r: Result<serde_json::Value, BggError>)
    ensures
        match outcome {
            ParseOutcome::Parsed(v) => r == Result::<serde_json::Value, BggError>::Ok(v),
            ParseOutcome::Malformed => r matches Err(BggError::Conversion),
        },
{
    match outcome {
        ParseOutcome::Parsed(v) => Ok(v),
        ParseOutcome::Malformed => Err(BggError::Conversion),
    }
}

/// Whether a status code asks for a retry: `202 Accepted` and nothing else.
pub fn should_retry(status: u16) -> (r: bool)
    ensures
        r <==> status == 202,
{
    status == 202
}

/// Per-call retry state: how many times the call has suspended for the
/// fixed interval while waiting for the server to finish.
pub struct RetryState {
    pub suspensions: u64,
}

impl RetryState {
    /// A fresh call: no suspensions yet.
    pub fn new() -> (r: Self)
        ensures
            r.suspensions == 0,
    {
        RetryState { suspensions: 0 }
    }

    /// Decides on a response status: `true` means suspend for the fixed
    /// interval and issue the identical request again, counting the
    /// suspension; anything else completes the call.
    pub fn on_response(&mut self, status: u16) -> (retry: bool)
        requires
            old(self).suspensions < u64::MAX,
        ensures
            retry <==> status == 202,
            status == 202 ==> final(self).suspensions == old(self).suspensions + 1,
            status != 202 ==> final(self).suspensions == old(self).suspensions,
    {
        if should_retry(status) {
            self.suspensions = self.suspensions + 1;
            true
        } else {
            false
        }
    }
}

/// One simulated exchange with the server: an answer with its status and
/// the normalizer's report on its body, or a failed connection.
#[derive(Debug)]
pub enum Reply {
    Answer(u16, ParseOutcome),
    ConnectionLost,
}

/// Whether a reply asks for a retry: an answer with status 202.
pub open spec fn is_retry_reply(r: Reply) -> bool {
    match r {
        Reply::Answer(st, _) => st == 202,
        Reply::ConnectionLost => false,
    }
}

/// How a protocol run against a transcript ended: with the normalized
/// value, with an error, or still waiting for a settling reply.
#[derive(Debug)]
pub enum RunOutcome {
    Done(serde_json::Value),
    Failed(BggError),
    Pending,
}

/// Number of leading 202 answers of a transcript: how often the protocol
/// suspends before a reply settles it.
pub open spec fn retries_of(rs: Seq<Reply>) -> int
    decreases rs.len(),
{
    if rs.len() == 0 {
        0
    } else if is_retry_reply(rs[0]) {
        1 + retries_of(rs.drop_first())
    } else {
        0
    }
}

proof fn lemma_retries_is(rs: Seq<Reply>, i: int)
    requires
        0 <= i <= rs.len(),
        forall|j: int| 0 <= j < i ==> is_retry_reply(#[trigger] rs[j]),
        i < rs.len() ==> !is_retry_reply(rs[i]),
    ensures
        retries_of(rs) == i,
    decreases rs.len(),
{
    if rs.len() == 0 {
    } else if is_retry_reply(rs[0]) {
        assert(i > 0);
        lemma_retries_is(rs.drop_first(), i - 1);
    } else {
        assert(i == 0);
    }
}

/// Runs the polling protocol against a transcript of replies: every leading
/// 202 answer causes exactly one suspension; the first other reply settles
/// the call — with the normalized value, a transport error on a failed
/// connection, or a conversion error on a rejected body.  A transcript of
/// nothing but 202 answers leaves the call pending, still waiting.
pub fn run_protocol(replies: Vec<Reply>) -> (r: (RunOutcome, u64))
    ensures
        ({
            let k = retries_of(replies@);
            &&& r.1 == k
            &&& k == replies@.len() ==> r.0 is Pending
            &&& k < replies@.len() ==> match replies@[k] {
                Reply::ConnectionLost => r.0 matches RunOutcome::Failed(BggError::Transport),
                Reply::Answer(st, ParseOutcome::Parsed(v)) => st != 202 && r.0 == RunOutcome::Done(
                    v,
                ),
                Reply::Answer(st, ParseOutcome::Malformed) => st != 202 && r.0 matches
                    RunOutcome::Failed(BggError::Conversion),
            }
        }),
{
    let ghost orig = replies@;
    let mut queue = replies;
    let mut state = RetryState::new();
    let mut consumed: usize = 0;
    let n = queue.len();
    proof {
        assert(orig.len() == n as int);
    }
    while queue.len() > 0
        invariant
            orig == replies@,
            consumed <= orig.len(),
            orig.len() <= usize::MAX,
            queue@ == orig.skip(consumed as int),
            forall|j: int| 0 <= j < consumed ==> is_retry_reply(#[trigger] orig[j]),
            state.suspensions == consumed,
        decreases queue@.len(),
    {
        let rep = queue.remove(0);
        proof {
            assert(rep == orig[consumed as int]);
            assert(orig.skip(consumed as int).remove(0) =~= orig.skip(consumed + 1));
        }
        match rep {
            Reply::ConnectionLost => {
                proof {
                    lemma_retries_is(orig, consumed as int);
                }
                return (RunOutcome::Failed(BggError::Transport), state.suspensions);
            },
            Reply::Answer(st, po) => {
                let retry = state.on_response(st);
                if retry {
                    consumed = consumed + 1;
                } else {
                    proof {
                        lemma_retries_is(orig, consumed as int);
                    }
                    match settle(po) {
                        Ok(v) => {
                            return (RunOutcome::Done(v), state.suspensions);
                        },
                        Err(e) => {
                            return (RunOutcome::Failed(e), state.suspensions);
                        },
                    }
                }
            },
        }
    }
    proof {
        assert(consumed == orig.len());
        lemma_retries_is(orig, consumed as int);
    }
    (RunOutcome::Pending, state.suspensions)
}

} // verus!

//! The peer-to-peer server's own rules: how it answers a request, and the
//! clock it stamps its messages with.
//!
//! Decoding a request's header and body, checking its signature and running
//! the handler for its kind happen outside; what they found is handed to
//! the functions below, which say what the server answers.
use crate::wallets::manager::{Wallet, WalletManager, lookup_result};
use vstd::prelude::*;

verus! {

/// A point in time of the system clock.
#[verifier::external_type_specification]
#[verifier::external_body]
pub struct ExSystemTime(std::time::SystemTime);

/// A point in time that lies before another.
#[verifier::external_type_specification]
#[verifier::external_body]
pub struct ExSystemTimeError(std::time::SystemTimeError);

/// The current time of the system clock, through `SystemTime::now`.
/// Nothing is stated of it.
#[verifier::external_body]
fn clock_now() -> (r: std::time::SystemTime) {
    std::time::SystemTime::now()
}

/// How long after the Unix epoch `t` lies, through
/// `SystemTime::duration_since(UNIX_EPOCH)`; an error when `t` lies before
/// it. Nothing is stated of the result.
#[verifier::external_body]
fn since_epoch(t: &std::time::SystemTime) -> (r: Result<std::time::Duration, std::time::SystemTimeError>) {
    t.duration_since(std::time::UNIX_EPOCH)
}

/// The whole seconds of `d`, through `Duration::as_secs`. Nothing is
/// stated of the result.
#[verifier::external_body]
fn whole_seconds(d: &std::time::Duration) -> (r: u64) {
    d.as_secs()
}

/// The current time in whole seconds since the Unix epoch; `None` when the
/// system clock lies before the epoch.
pub fn timestamp() -> (r: Option<u64>) {
    let now = clock_now();
    match since_epoch(&now) {
        Ok(d) => Some(whole_seconds(&d)),
        Err(_) => None,
    }
}

/// The kinds of request a peer can make.
#[derive(Debug, Clone, Copy, PartialEq, Eq)]
pub enum RequestKind {
    FinalVote,
    VoteProposal,
    Forward,
    Ping,
}

/// What was found of a request before it is handled.
#[derive(Debug, Clone, Copy, PartialEq, Eq)]
pub enum RequestCheck {
    /// its header does not decode
    HeaderUndecodable,
    /// its signature does not verify against the header's public key
    SignatureInvalid,
    /// its body does not decode
    BodyUndecodable,
    /// its body carries no data ("data was none")
    NoData,
    /// it is a well-formed request of this kind
    Request(RequestKind),
}

/// How the server goes on with a request.
#[derive(Debug, Clone, Copy, PartialEq, Eq)]
pub enum RequestStep {
    /// answer "malformed request" and report the request as failed
    RejectMalformed,
    /// hand the request to the handler of its kind
    Handle(RequestKind),
    /// answer with a pong: a ping is answered by its own handler
    Pong,
}

/// What the server answers once a request was handled.
#[derive(Debug, Clone, Copy, PartialEq, Eq)]
pub enum Answer {
    Success,
    MalformedRequest,
}

/// The first decision on a request: anything that is not a well-formed
/// request is rejected as malformed; a ping is answered with a pong; a vote
/// proposal or a forwarded message goes to its handler. Final votes are not
/// handled (their handler is not written), so they are left out.
pub fn request_step(check: RequestCheck) -> (r: RequestStep)
    requires
        check != RequestCheck::Request(RequestKind::FinalVote),
    ensures
        match check {
            RequestCheck::Request(RequestKind::Ping) => r == RequestStep::Pong,
            RequestCheck::Request(k) => r == RequestStep::Handle(k),
            _ => r == RequestStep::RejectMalformed,
        },
{
    match check {
        RequestCheck::HeaderUndecodable => RequestStep::RejectMalformed,
        RequestCheck::SignatureInvalid => RequestStep::RejectMalformed,
        RequestCheck::BodyUndecodable => RequestStep::RejectMalformed,
        RequestCheck::NoData => RequestStep::RejectMalformed,
        RequestCheck::Request(RequestKind::Ping) => RequestStep::Pong,
        RequestCheck::Request(k) => RequestStep::Handle(k),
    }
}

/// The answer once a handler ran: success when it succeeded, "malformed
/// request" when it failed.
pub fn handled_answer(handler_succeeded: bool) -> (r: Answer)
    ensures
        handler_succeeded ==> r == Answer::Success,
        !handler_succeeded ==> r == Answer::MalformedRequest,
{
    if handler_succeeded {
        Answer::Success
    } else {
        Answer::MalformedRequest
    }
}

/// The wallet the node signs its peer-to-peer traffic with: the primary
/// wallet the configuration names, which the node must know; otherwise the
/// server does not start, with "no primary wallet found".
pub fn node_wallet<'a>(wallets: &'a WalletManager, primary: Option<&str>) -> (r: Result<&'a Wallet, String>)
    ensures
        match primary {
            Some(p) => match r {
                Ok(w) => lookup_result(wallets@.wallets, p@, Some(w)),
                Err(m) => lookup_result(wallets@.wallets, p@, None::<&Wallet>) && m@ == "no primary wallet found"@,
            },
            None => r matches Err(m) && m@ == "no primary wallet found"@,
        },
{
    match wallets.primary_wallet(primary) {
        Some(w) => Ok(w),
        None => {
            let m = "no primary wallet found";
            proof {
                reveal_strlit("no primary wallet found");
            }
            Err(m.to_string())
        },
    }
}

} // verus!

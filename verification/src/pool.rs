//! Worker-pool jobs: a job carries a code snapshot, a handler name, the
//! request and a single-shot reply channel. Sending the reply consumes both
//! the job and the channel's sender, so each job yields at most one reply,
//! delivered to exactly its submitter.

use vstd::prelude::*;

use crate::error::WorkerError;
use crate::model::Res;

verus! {

/// Relies on `oneshot::Sender`, the sending half of a single-shot channel;
/// the type is opaque here and only carried inside a job.
#[verifier::external_type_specification]
#[verifier::external_body]
#[verifier::reject_recursive_types(T)]
pub struct ExSender<T>(oneshot::Sender<T>);

/// The outcome a worker reports for one job.
pub type Reply = Result<Res, WorkerError>;

/// One unit of work for the pool: the bundled code the worker must run, the
/// handler name the router selected, the assembled request, and the channel
/// on which exactly this job's reply travels back.
pub struct Params {
    pub code: String,
    pub handler: String,
    pub req: crate::model::Req,
    pub tx: oneshot::Sender<Reply>,
}

/// Relies on `oneshot::Sender::send`: the sender is consumed by the call, so
/// a second send on the same channel is impossible; when the receiver is
/// already dropped the message comes back unchanged inside the error.
#[verifier::external_body]
fn send_reply<T>(tx: oneshot::Sender<T>, message: T) -> (r: Result<(), T>)
    ensures
        r matches Err(m) ==> m == message,
{
    match tx.send(message) {
        Ok(()) => Ok(()),
        Err(e) => Err(e.into_inner()),
    }
}

impl Params {
    /// Package one job.
    pub fn new(code: String, handler: String, req: crate::model::Req, tx: oneshot::Sender<
        Reply,
    >) -> (p: Params)
        ensures
            p.code == code,
            p.handler == handler,
            p.req == req,
            p.tx == tx,
    {
        Params { code, handler, req, tx }
    }

    /// Consume the job and deliver its reply. The job and its sender are
    /// both moved, so a worker can reply at most once per job; if the
    /// submitter has already gone away, the reply comes back unchanged and
    /// is discarded by the caller.
    pub fn complete(self, result: Reply) -> (r: Result<(), Reply>)
        ensures
            r matches Err(m) ==> m == result,
    {
        send_reply(self.tx, result)
    }
}

} // verus!

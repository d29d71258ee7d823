//! Error taxonomy of the runtime: routing errors, worker-side failures and
//! their mapping to HTTP status codes.

use vstd::prelude::*;
use vstd::string::StringExecFns;

verus! {

/// A failure produced while running a handler inside the embedded engine.
#[derive(Debug)]
pub enum WorkerError {
    /// Evaluating the bundled script failed.
    ScriptEvalFailed(String),
    /// The bundle exports no property under the requested handler name.
    HandlerMissing(String),
    /// The property exists but is not callable.
    HandlerNotCallable(String),
    /// The handler raised; the payload is its message.
    HandlerThrew(String),
    /// The handler returned a value that does not decode as a response.
    InvalidResponseShape,
}

/// An error surfaced by the dispatcher as an HTTP response.
#[derive(Debug)]
pub enum AppError {
    /// No tenant is registered under the requested virtual host.
    HostNotFound(String),
    /// No route pattern matches the request path.
    RoutePathNotFound(String),
    /// A pattern matches the path, but no route allows the method.
    RouteMethodNotAllowed(String),
    /// The worker reported a failure while executing the handler.
    Worker(WorkerError),
    /// The reply channel closed before a reply arrived.
    ChannelClosed,
    /// Any other internal failure, carried as a message.
    Internal(String),
}

/// Ghost form of `WorkerError`.
pub ghost enum WorkerErrorV {
    ScriptEvalFailed(Seq<char>),
    HandlerMissing(Seq<char>),
    HandlerNotCallable(Seq<char>),
    HandlerThrew(Seq<char>),
    InvalidResponseShape,
}

/// Ghost form of `AppError`.
pub ghost enum AppErrorV {
    HostNotFound(Seq<char>),
    RoutePathNotFound(Seq<char>),
    RouteMethodNotAllowed(Seq<char>),
    Worker(WorkerErrorV),
    ChannelClosed,
    Internal(Seq<char>),
}

impl View for WorkerError {
    type V = WorkerErrorV;

    open spec fn view(&self) -> WorkerErrorV {
        match self {
            WorkerError::ScriptEvalFailed(m) => WorkerErrorV::ScriptEvalFailed(m@),
            WorkerError::HandlerMissing(n) => WorkerErrorV::HandlerMissing(n@),
            WorkerError::HandlerNotCallable(n) => WorkerErrorV::HandlerNotCallable(n@),
            WorkerError::HandlerThrew(m) => WorkerErrorV::HandlerThrew(m@),
            WorkerError::InvalidResponseShape => WorkerErrorV::InvalidResponseShape,
        }
    }
}

impl View for AppError {
    type V = AppErrorV;

    open spec fn view(&self) -> AppErrorV {
        match self {
            AppError::HostNotFound(h) => AppErrorV::HostNotFound(h@),
            AppError::RoutePathNotFound(p) => AppErrorV::RoutePathNotFound(p@),
            AppError::RouteMethodNotAllowed(m) => AppErrorV::RouteMethodNotAllowed(m@),
            AppError::Worker(w) => AppErrorV::Worker(w@),
            AppError::ChannelClosed => AppErrorV::ChannelClosed,
            AppError::Internal(m) => AppErrorV::Internal(m@),
        }
    }
}

/// The HTTP status under which an error surfaces: unknown host or path is
/// 404, a known path under a wrong method is 405, everything else is an
/// internal failure.
pub open spec fn spec_status_of(e: AppErrorV) -> u16 {
    match e {
        AppErrorV::HostNotFound(_) => 404,
        AppErrorV::RoutePathNotFound(_) => 404,
        AppErrorV::RouteMethodNotAllowed(_) => 405,
        AppErrorV::Worker(_) => 500,
        AppErrorV::ChannelClosed => 500,
        AppErrorV::Internal(_) => 500,
    }
}

/// The plain-text wording of a worker failure.
pub open spec fn spec_worker_message(e: WorkerErrorV) -> Seq<char> {
    match e {
        WorkerErrorV::ScriptEvalFailed(m) => "Script eval failed: "@ + m,
        WorkerErrorV::HandlerMissing(n) => "Handler not found: "@ + n,
        WorkerErrorV::HandlerNotCallable(n) => "Handler not callable: "@ + n,
        WorkerErrorV::HandlerThrew(m) => "Handler threw: "@ + m,
        WorkerErrorV::InvalidResponseShape => "Invalid response shape"@,
    }
}

/// The plain-text wording an error surfaces with as the response body.
pub open spec fn spec_error_message(e: AppErrorV) -> Seq<char> {
    match e {
        AppErrorV::HostNotFound(h) => "Host not found: "@ + h,
        AppErrorV::RoutePathNotFound(p) => "Path not found: "@ + p,
        AppErrorV::RouteMethodNotAllowed(m) => "Method not found: "@ + m,
        AppErrorV::Worker(w) => "Worker error: "@ + spec_worker_message(w),
        AppErrorV::ChannelClosed => "Reply channel closed"@,
        AppErrorV::Internal(m) => "Internal error: "@ + m,
    }
}

impl WorkerError {
    /// The error string of this failure.
    pub fn message(&self) -> (m: String)
        ensures
            m@ == spec_worker_message(self@),
    {
        match self {
            WorkerError::ScriptEvalFailed(s) => String::from_str("Script eval failed: ").concat(
                s.as_str(),
            ),
            WorkerError::HandlerMissing(n) => String::from_str("Handler not found: ").concat(
                n.as_str(),
            ),
            WorkerError::HandlerNotCallable(n) => String::from_str("Handler not callable: ")
                .concat(n.as_str()),
            WorkerError::HandlerThrew(s) => String::from_str("Handler threw: ").concat(s.as_str()),
            WorkerError::InvalidResponseShape => String::from_str("Invalid response shape"),
        }
    }
}

impl AppError {
    /// The error string surfaced as the plain-text response body.
    pub fn message(&self) -> (m: String)
        ensures
            m@ == spec_error_message(self@),
    {
        match self {
            AppError::HostNotFound(h) => String::from_str("Host not found: ").concat(h.as_str()),
            AppError::RoutePathNotFound(p) => String::from_str("Path not found: ").concat(
                p.as_str(),
            ),
            AppError::RouteMethodNotAllowed(m) => String::from_str("Method not found: ").concat(
                m.as_str(),
            ),
            AppError::Worker(w) => String::from_str("Worker error: ").concat(w.message().as_str()),
            AppError::ChannelClosed => String::from_str("Reply channel closed"),
            AppError::Internal(m) => String::from_str("Internal error: ").concat(m.as_str()),
        }
    }

    /// The HTTP status code this error maps to.
    pub fn status_code(&self) -> (code: u16)
        ensures
            code == spec_status_of(self@),
    {
        match self {
            AppError::HostNotFound(_) => 404,
            AppError::RoutePathNotFound(_) => 404,
            AppError::RouteMethodNotAllowed(_) => 405,
            AppError::Worker(_) => 500,
            AppError::ChannelClosed => 500,
            AppError::Internal(_) => 500,
        }
    }
}

} // verus!

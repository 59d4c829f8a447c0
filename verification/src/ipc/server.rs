//! The socket server for local clients: how it starts, and what a connection goes
//! through.
use vstd::prelude::*;
use vstd::string::*;
use crate::error::{CoreError, ErrorView, Result};
use crate::paths::{parent_dir, parent_of};
use crate::text::{cat2, cat4, trim_text, trimmed, trimmed_loses_only_white_space, white_space};

verus! {

/// The socket server.
#[derive(Debug, PartialEq, Eq)]
pub struct IpcServer {
    /// Path of the socket.
    pub socket_path: String,
}

/// What to do next while the server starts.
#[derive(Debug, PartialEq, Eq)]
pub enum StartStep {
    /// Make the directory of the socket.
    MakeDir(String),
    /// See whether a socket is left over.
    LookForStale,
    /// Remove the left-over socket.
    RemoveStale,
    /// Bind the socket and serve.
    Bind,
    /// Serving, or failed.
    Started(Result<()>),
}

/// What came of a [`StartStep`].
#[derive(Debug, PartialEq, Eq)]
pub enum StartReport {
    /// Whether the directory is there now.
    DirMade(std::result::Result<(), String>),
    /// Whether a socket is left over.
    Stale(bool),
    /// Whether the left-over socket is gone.
    Removed(std::result::Result<(), String>),
    /// Whether the socket is bound.
    Bound(std::result::Result<(), String>),
}

/// Whether a report answers a step.
pub open spec fn answers_start(step: StartStep, report: StartReport) -> bool {
    match step {
        StartStep::MakeDir(_) => report is DirMade,
        StartStep::LookForStale => report is Stale,
        StartStep::RemoveStale => report is Removed,
        StartStep::Bind => report is Bound,
        StartStep::Started(_) => false,
    }
}

/// Whether a start failed with an error.
pub open spec fn start_failed(step: StartStep, e: ErrorView) -> bool {
    step is Started && step->Started_0 is Err && step->Started_0->Err_0@ == e
}

/// What follows a report.
pub open spec fn start_follows(
    path: Seq<char>,
    step: StartStep,
    report: StartReport,
    next: StartStep,
) -> bool {
    match report {
        StartReport::DirMade(Ok(_)) => next == StartStep::LookForStale,
        StartReport::DirMade(Err(e)) => start_failed(
            next,
            ErrorView::Configuration(
                "cannot create socket directory "@ + step->MakeDir_0@ + ": "@ + e@,
            ),
        ),
        StartReport::Stale(there) => next == (if there {
            StartStep::RemoveStale
        } else {
            StartStep::Bind
        }),
        StartReport::Removed(Ok(_)) => next == StartStep::Bind,
        StartReport::Removed(Err(e)) => start_failed(
            next,
            ErrorView::Configuration("cannot remove stale socket "@ + path + ": "@ + e@),
        ),
        StartReport::Bound(Ok(_)) => next == StartStep::Started(Ok(())),
        StartReport::Bound(Err(e)) => start_failed(
            next,
            ErrorView::Network("cannot bind to "@ + path + ": "@ + e@),
        ),
    }
}

impl IpcServer {
    /// A server on a socket.
    pub fn new(socket_path: String) -> (r: Self)
        ensures
            r.socket_path == socket_path,
    {
        IpcServer { socket_path }
    }

    /// The first thing to do when the server starts.
    pub fn start(&self) -> (r: StartStep)
        ensures
            match parent_dir(self.socket_path@) {
                Some(p) => r is MakeDir && r->MakeDir_0@ == p,
                None => r == StartStep::LookForStale,
            },
    {
        match parent_of(self.socket_path.as_str()) {
            Some(p) => StartStep::MakeDir(p),
            None => StartStep::LookForStale,
        }
    }

    /// What follows a report; the step again, where the report answers another.
    pub fn run(&self, step: StartStep, report: StartReport) -> (next: StartStep)
        ensures
            if answers_start(step, report) {
                start_follows(self.socket_path@, step, report, next)
            } else {
                next == step
            },
    {
        match (step, report) {
            (StartStep::MakeDir(dir), StartReport::DirMade(made)) => match made {
                Ok(_) => StartStep::LookForStale,
                Err(e) => StartStep::Started(
                    Err(
                        CoreError::Configuration(
                            cat4(
                                "cannot create socket directory ",
                                dir.as_str(),
                                ": ",
                                e.as_str(),
                            ),
                        ),
                    ),
                ),
            },
            (StartStep::LookForStale, StartReport::Stale(there)) => if there {
                StartStep::RemoveStale
            } else {
                StartStep::Bind
            },
            (StartStep::RemoveStale, StartReport::Removed(removed)) => match removed {
                Ok(_) => StartStep::Bind,
                Err(e) => StartStep::Started(
                    Err(
                        CoreError::Configuration(
                            cat4(
                                "cannot remove stale socket ",
                                self.socket_path.as_str(),
                                ": ",
                                e.as_str(),
                            ),
                        ),
                    ),
                ),
            },
            (StartStep::Bind, StartReport::Bound(bound)) => match bound {
                Ok(_) => StartStep::Started(Ok(())),
                Err(e) => StartStep::Started(
                    Err(
                        CoreError::Network(
                            cat4("cannot bind to ", self.socket_path.as_str(), ": ", e.as_str()),
                        ),
                    ),
                ),
            },
            (step, _) => step,
        }
    }
}

/// What a connection does next.
#[derive(Debug, PartialEq, Eq)]
pub enum ConnStep {
    /// Parse this text as a request.
    Parse(String),
    /// Serve the request.
    Serve,
    /// Send this text.
    Send(String),
    /// Close the connection.
    Shutdown,
    /// Nothing more.
    Closed(Result<()>),
}

/// What came of a [`ConnStep`], or of reading the connection.
#[derive(Debug, PartialEq, Eq)]
pub enum ConnReport {
    /// A line, or nothing where the client left.
    Line(std::result::Result<Option<String>, String>),
    /// Whether the text is a request.
    Parsed(std::result::Result<(), String>),
    /// The response as text.
    Served(std::result::Result<String, String>),
    /// Whether the response was sent.
    Sent(std::result::Result<(), String>),
    /// Whether the connection was closed.
    ShutDown(std::result::Result<(), String>),
}

/// Whether a connection failed with an error.
pub open spec fn conn_failed(step: ConnStep, e: ErrorView) -> bool {
    step is Closed && step->Closed_0 is Err && step->Closed_0->Err_0@ == e
}

/// What a connection does after a report.
pub open spec fn conn_follows(report: ConnReport, next: ConnStep) -> bool {
    match report {
        ConnReport::Line(Ok(Some(line))) => next is Parse && next->Parse_0@ == trimmed(line@),
        ConnReport::Line(Ok(None)) => next == ConnStep::Closed(Ok(())),
        ConnReport::Line(Err(e)) => conn_failed(
            next,
            ErrorView::Network("IPC read error: "@ + e@),
        ),
        ConnReport::Parsed(Ok(_)) => next == ConnStep::Serve,
        ConnReport::Parsed(Err(e)) => conn_failed(
            next,
            ErrorView::Serialization("invalid JSON-RPC request: "@ + e@),
        ),
        ConnReport::Served(Ok(text)) => next is Send && next->Send_0@ == text@ + "\n"@,
        ConnReport::Served(Err(e)) => conn_failed(
            next,
            ErrorView::Serialization("failed to serialize response: "@ + e@),
        ),
        ConnReport::Sent(Ok(_)) => next == ConnStep::Shutdown,
        ConnReport::Sent(Err(e)) => conn_failed(
            next,
            ErrorView::Network("IPC write error: "@ + e@),
        ),
        ConnReport::ShutDown(Ok(_)) => next == ConnStep::Closed(Ok(())),
        ConnReport::ShutDown(Err(e)) => conn_failed(
            next,
            ErrorView::Network("IPC shutdown error: "@ + e@),
        ),
    }
}

/// What a connection does after a report: one request, one response, then the
/// connection is closed.
pub fn handle_connection(report: ConnReport) -> (next: ConnStep)
    ensures
        conn_follows(report, next),
{
    match report {
        ConnReport::Line(Ok(Some(line))) => ConnStep::Parse(trim_text(line.as_str())),
        ConnReport::Line(Ok(None)) => ConnStep::Closed(Ok(())),
        ConnReport::Line(Err(e)) => ConnStep::Closed(
            Err(CoreError::Network(cat2("IPC read error: ", e.as_str()))),
        ),
        ConnReport::Parsed(Ok(_)) => ConnStep::Serve,
        ConnReport::Parsed(Err(e)) => ConnStep::Closed(
            Err(CoreError::Serialization(cat2("invalid JSON-RPC request: ", e.as_str()))),
        ),
        ConnReport::Served(Ok(text)) => ConnStep::Send(cat2(text.as_str(), "\n")),
        ConnReport::Served(Err(e)) => ConnStep::Closed(
            Err(CoreError::Serialization(cat2("failed to serialize response: ", e.as_str()))),
        ),
        ConnReport::Sent(Ok(_)) => ConnStep::Shutdown,
        ConnReport::Sent(Err(e)) => ConnStep::Closed(
            Err(CoreError::Network(cat2("IPC write error: ", e.as_str()))),
        ),
        ConnReport::ShutDown(Ok(_)) => ConnStep::Closed(Ok(())),
        ConnReport::ShutDown(Err(e)) => ConnStep::Closed(
            Err(CoreError::Network(cat2("IPC shutdown error: ", e.as_str()))),
        ),
    }
}

/// A connection serves one request: its line is parsed without the white space
/// around it, the response goes out with a line feed behind it, and then the
/// connection is closed. Whatever fails closes it with an error.
pub proof fn connection_serves_one_request(report: ConnReport, next: ConnStep)
    requires
        conn_follows(report, next),
    ensures
        report matches ConnReport::Line(Ok(Some(line))) ==> next is Parse && exists|
            front: Seq<char>,
            back: Seq<char>,
        | line@ == #[trigger] (front + next->Parse_0@ + back) && (forall|i: int|
            0 <= i < front.len() ==> white_space(#[trigger] front[i])) && (forall|i: int|
            0 <= i < back.len() ==> white_space(#[trigger] back[i])),
        report matches ConnReport::Parsed(Ok(_)) ==> next == ConnStep::Serve,
        report matches ConnReport::Served(Ok(text)) ==> next is Send && next->Send_0@ == text@.push(
            '\n',
        ),
        report matches ConnReport::Sent(Ok(_)) ==> next == ConnStep::Shutdown,
        report matches ConnReport::ShutDown(Ok(_)) ==> next == ConnStep::Closed(Ok(())),
        report matches ConnReport::Line(Ok(None)) ==> next == ConnStep::Closed(Ok(())),
        report matches ConnReport::Line(Err(_)) ==> next is Closed && next->Closed_0 is Err,
        report matches ConnReport::Parsed(Err(_)) ==> next is Closed && next->Closed_0 is Err,
        report matches ConnReport::Served(Err(_)) ==> next is Closed && next->Closed_0 is Err,
        report matches ConnReport::Sent(Err(_)) ==> next is Closed && next->Closed_0 is Err,
{
    reveal_strlit("\n");
    match report {
        ConnReport::Line(Ok(Some(line))) => {
            trimmed_loses_only_white_space(line@);
        },
        ConnReport::Served(Ok(text)) => {
            assert(next->Send_0@ =~= text@.push('\n'));
        },
        _ => {},
    }
}

/// A server is started only once its socket is bound, a left-over socket is removed
/// before that, and nothing is removed where none is left over.
pub proof fn server_starts_on_a_fresh_socket(
    path: Seq<char>,
    step: StartStep,
    report: StartReport,
    next: StartStep,
)
    requires
        answers_start(step, report),
        start_follows(path, step, report, next),
    ensures
        next is Started && next->Started_0 is Ok ==> step is Bind && report is Bound
            && report->Bound_0 is Ok,
        report is Bound && report->Bound_0 is Ok ==> next is Started && next->Started_0 is Ok,
        report == StartReport::Stale(true) <==> next == StartStep::RemoveStale,
        report == StartReport::Stale(false) ==> next == StartStep::Bind,
        report matches StartReport::DirMade(Err(_)) ==> next is Started && next->Started_0 is Err,
        report matches StartReport::Removed(Err(_)) ==> next is Started && next->Started_0 is Err,
        report matches StartReport::Bound(Err(_)) ==> next is Started && next->Started_0 is Err,
{
}

} // verus!

//! The exchange with the container runtime and the host.
//!
//! The store never talks to a runtime itself. An operation is a procedure
//! that is handed the replies received so far; it reads them in order, and
//! where it needs a reply that has not come yet it stops and hands back the
//! request that would bring it. Whoever drives the operation performs that
//! request, appends the reply, and starts the procedure again from the top.
//! A procedure is a function of its arguments and of those replies, so the
//! requests it makes depend on nothing else.

use crate::dockerclient::{Container, ContainerView};
use crate::hostitem::{HostEntry, HostEntryView};
use vstd::prelude::*;

verus! {

/// What an operation asks its driver to do.
#[derive(Debug, Clone, PartialEq, Eq)]
pub enum Request {
    /// List the containers: the running ones, or with `all` every one.
    ListContainers { all: bool },
    /// Create a container from an image, with a terminal attached.
    CreateContainer { image: String },
    /// Start a container.
    StartContainer { container: String },
    /// Remove a container by force.
    RemoveContainer { container: String },
    /// Run a command line in the host's shell and collect what it prints.
    Shell { command: String },
    /// Read what the host holds at a path.
    ReadHost { path: String },
}

/// What the driver answers.
#[derive(Debug, Clone, PartialEq, Eq)]
pub enum Reply {
    /// The containers that were listed.
    Containers(Vec<Container>),
    /// The identifier of the container that was created.
    Created(String),
    /// The request was carried out and there is nothing to report.
    Done,
    /// A command ran: whether it exited with success, and what it printed
    /// on its output and on its diagnostic stream.
    Exit { success: bool, stdout: String, stderr: String },
    /// What the host holds at the path.
    Host(HostEntry),
    /// The request could not be carried out; the text says why.
    Failed(String),
}

/// A request as a contract sees it.
pub enum RequestView {
    ListContainers { all: bool },
    CreateContainer { image: Seq<char> },
    StartContainer { container: Seq<char> },
    RemoveContainer { container: Seq<char> },
    Shell { command: Seq<char> },
    ReadHost { path: Seq<char> },
}

/// A reply as a contract sees it.
pub enum ReplyView {
    Containers(Seq<ContainerView>),
    Created(Seq<char>),
    Done,
    Exit { success: bool, stdout: Seq<char>, stderr: Seq<char> },
    Host(HostEntryView),
    Failed(Seq<char>),
}

impl DeepView for Request {
    type V = RequestView;

    open spec fn deep_view(&self) -> RequestView {
        match *self {
            Request::ListContainers { all } => RequestView::ListContainers { all },
            Request::CreateContainer { image } => RequestView::CreateContainer { image: image@ },
            Request::StartContainer { container } => RequestView::StartContainer {
                container: container@,
            },
            Request::RemoveContainer { container } => RequestView::RemoveContainer {
                container: container@,
            },
            Request::Shell { command } => RequestView::Shell { command: command@ },
            Request::ReadHost { path } => RequestView::ReadHost { path: path@ },
        }
    }
}

impl DeepView for Reply {
    type V = ReplyView;

    open spec fn deep_view(&self) -> ReplyView {
        match *self {
            Reply::Containers(list) => ReplyView::Containers(list.deep_view()),
            Reply::Created(id) => ReplyView::Created(id@),
            Reply::Done => ReplyView::Done,
            Reply::Exit { success, stdout, stderr } => ReplyView::Exit {
                success,
                stdout: stdout@,
                stderr: stderr@,
            },
            Reply::Host(entry) => ReplyView::Host(entry.deep_view()),
            Reply::Failed(reason) => ReplyView::Failed(reason@),
        }
    }
}

/// How a procedure ends for now: with the request it waits on, or with its
/// result.
#[derive(Debug, Clone, PartialEq, Eq)]
pub enum Step<T> {
    /// No reply is left to read; the driver is to perform this request.
    Ask(Request),
    /// The procedure has finished.
    Done(T),
}

/// What a procedure does with the replies it is given: it stops at a request
/// that none of them answers, or it finishes with a value and leaves the
/// replies that it did not read.
pub enum Run<V> {
    Blocked(RequestView),
    Finished(V, Seq<ReplyView>),
}

impl<V> Run<V> {
    /// The procedure that goes on with `next` once this one has finished.
    pub open spec fn and_then<W>(self, next: spec_fn(V, Seq<ReplyView>) -> Run<W>) -> Run<W> {
        match self {
            Run::Blocked(request) => Run::Blocked(request),
            Run::Finished(value, rest) => next(value, rest),
        }
    }

    /// The procedure that finishes with `f` of this one's value.
    pub open spec fn map<W>(self, f: spec_fn(V) -> W) -> Run<W> {
        match self {
            Run::Blocked(request) => Run::Blocked(request),
            Run::Finished(value, rest) => Run::Finished(f(value), rest),
        }
    }
}

/// One exchange: the first unread reply answers the request.
pub open spec fn exchange(request: RequestView, unread: Seq<ReplyView>) -> Run<ReplyView> {
    if unread.len() == 0 {
        Run::Blocked(request)
    } else {
        Run::Finished(unread[0], unread.skip(1))
    }
}

/// The procedure that goes on with `next` where `run` succeeds, and that
/// finishes with the failure, wrapped by `wrap`, where it fails.
pub open spec fn attempt<A, E, B, F>(
    run: Run<Result<A, E>>,
    wrap: spec_fn(E) -> F,
    next: spec_fn(A, Seq<ReplyView>) -> Run<Result<B, F>>,
) -> Run<Result<B, F>> {
    match run {
        Run::Blocked(request) => Run::Blocked(request),
        Run::Finished(Err(e), rest) => Run::Finished(Err(wrap(e)), rest),
        Run::Finished(Ok(value), rest) => next(value, rest),
    }
}

/// A result as a contract sees it.
pub open spec fn result_view<T: DeepView, E: DeepView>(r: Result<T, E>) -> Result<T::V, E::V> {
    match r {
        Ok(value) => Ok(value.deep_view()),
        Err(e) => Err(e.deep_view()),
    }
}

/// Whether a procedure that returned `step`, and left `unread` behind, did
/// what `run` says.
pub open spec fn follows<T: DeepView, E: DeepView>(
    step: Step<Result<T, E>>,
    unread: Seq<ReplyView>,
    run: Run<Result<T::V, E::V>>,
) -> bool {
    match run {
        Run::Blocked(request) => step matches Step::Ask(asked) && asked.deep_view() == request,
        Run::Finished(value, rest) => step matches Step::Done(r) && result_view(r) == value
            && unread == rest,
    }
}

/// The replies received so far, and how many of them have been read.
pub struct Session<'a> {
    replies: &'a Vec<Reply>,
    next: usize,
}

impl<'a> Session<'a> {
    #[verifier::type_invariant]
    spec fn in_bounds(self) -> bool {
        self.next <= self.replies@.len()
    }

    /// The replies that have not been read yet.
    pub closed spec fn unread(&self) -> Seq<ReplyView> {
        self.replies.deep_view().skip(self.next as int)
    }

    /// A session in which none of `replies` has been read.
    pub fn new(replies: &'a Vec<Reply>) -> (session: Session<'a>)
        ensures
            session.unread() == replies.deep_view(),
    {
        assert(replies.deep_view().skip(0) =~= replies.deep_view());
        Session { replies, next: 0 }
    }

    /// Reads the reply to `request`, or asks for it when no reply is left.
    pub fn call(&mut self, request: Request) -> (step: Step<&'a Reply>)
        ensures
            match exchange(request.deep_view(), old(self).unread()) {
                Run::Blocked(asked) => step == Step::<&Reply>::Ask(request) && final(self).unread()
                    == old(self).unread(),
                Run::Finished(reply, rest) => step matches Step::Done(r) && r.deep_view() == reply
                    && final(self).unread() == rest,
            },
    {
        proof {
            use_type_invariant(&*self);
        }
        if self.next < self.replies.len() {
            let reply = &self.replies[self.next];
            self.next = self.next + 1;
            assert(old(self).unread().skip(1) =~= self.unread());
            Step::Done(reply)
        } else {
            Step::Ask(request)
        }
    }
}

} // verus!

//! The container runtime as the store uses it: containers, images, and the
//! command lines that move data in and out of them.

use crate::runtime::{
    attempt, exchange, follows, result_view, Reply, ReplyView, Request, RequestView, Run, Session,
    Step,
};
use crate::search::{first_index, lemma_first_index_at, lemma_first_index_none};
use vstd::prelude::*;
use vstd::string::*;

verus! {

/// Why the runtime could not do what was asked.
#[derive(Debug, Clone, PartialEq, Eq)]
pub enum Error {
    /// Flattening an image failed; the text is what the command reported.
    SquashError(String),
    /// Committing a container failed.
    CommitError(String),
    /// A container was created but does not show among the containers.
    CreateError(String),
    /// Copying into or out of a container failed.
    CopyError(String),
    /// Pushing an image failed.
    PushError(String),
    /// Logging in to the registry failed.
    LoginError(String),
    /// Anything else: a command that could not be started, a request the
    /// runtime refused, or a reply of the wrong kind.
    DefaultError(String),
}

/// An error of the runtime as a contract sees it.
pub enum ErrorView {
    SquashError(Seq<char>),
    CommitError(Seq<char>),
    CreateError(Seq<char>),
    CopyError(Seq<char>),
    PushError(Seq<char>),
    LoginError(Seq<char>),
    DefaultError(Seq<char>),
}

impl DeepView for Error {
    type V = ErrorView;

    open spec fn deep_view(&self) -> ErrorView {
        match *self {
            Error::SquashError(m) => ErrorView::SquashError(m@),
            Error::CommitError(m) => ErrorView::CommitError(m@),
            Error::CreateError(m) => ErrorView::CreateError(m@),
            Error::CopyError(m) => ErrorView::CopyError(m@),
            Error::PushError(m) => ErrorView::PushError(m@),
            Error::LoginError(m) => ErrorView::LoginError(m@),
            Error::DefaultError(m) => ErrorView::DefaultError(m@),
        }
    }
}

/// A container: its identifier and the reference of the image it runs.
#[derive(Debug, Clone, PartialEq, Eq)]
pub struct Container {
    pub id: String,
    pub image: String,
}

/// A container as a contract sees it.
pub struct ContainerView {
    pub id: Seq<char>,
    pub image: Seq<char>,
}

impl DeepView for Container {
    type V = ContainerView;

    open spec fn deep_view(&self) -> ContainerView {
        ContainerView { id: self.id@, image: self.image@ }
    }
}


/// The message of the error that stands for a reply of the wrong kind.
pub open spec fn unexpected_reply() -> Seq<char> {
    "unexpected reply"@
}

/// The error that stands for a reply of the wrong kind.
pub(crate) fn unexpected() -> (e: Error)
    ensures
        e.deep_view() == ErrorView::DefaultError(unexpected_reply()),
{
    Error::DefaultError(String::from_str("unexpected reply"))
}

/// A copy of a container's record.
fn copy_container(c: &Container) -> (out: Container)
    ensures
        out.deep_view() == c.deep_view(),
{
    Container { id: c.id.clone(), image: c.image.clone() }
}

/// A copy of a list of containers.
fn copy_containers(list: &Vec<Container>) -> (out: Vec<Container>)
    ensures
        out.deep_view() == list.deep_view(),
{
    let mut out: Vec<Container> = Vec::new();
    let mut i: usize = 0;
    while i < list.len()
        invariant
            i <= list.len(),
            out.len() == i,
            forall|j: int| 0 <= j < i ==> out[j].deep_view() == list[j].deep_view(),
        decreases list.len() - i,
    {
        out.push(copy_container(&list[i]));
        i += 1;
    }
    assert(out.deep_view() =~= list.deep_view());
    out
}

/// What a reply to a listing request means.
pub open spec fn listed(reply: ReplyView) -> Result<Seq<ContainerView>, ErrorView> {
    match reply {
        ReplyView::Containers(list) => Ok(list),
        ReplyView::Failed(reason) => Err(ErrorView::DefaultError(reason)),
        _ => Err(ErrorView::DefaultError(unexpected_reply())),
    }
}

/// What a reply to a request that reports nothing means.
pub open spec fn carried_out(reply: ReplyView) -> Result<(), ErrorView> {
    match reply {
        ReplyView::Done => Ok(()),
        ReplyView::Failed(reason) => Err(ErrorView::DefaultError(reason)),
        _ => Err(ErrorView::DefaultError(unexpected_reply())),
    }
}

/// What a reply to a command means: whether the command succeeded, its
/// output and its diagnostics.
pub open spec fn ran(reply: ReplyView) -> Result<(bool, Seq<char>, Seq<char>), ErrorView> {
    match reply {
        ReplyView::Exit { success, stdout, stderr } => Ok((success, stdout, stderr)),
        ReplyView::Failed(reason) => Err(ErrorView::DefaultError(reason)),
        _ => Err(ErrorView::DefaultError(unexpected_reply())),
    }
}

/// Listing the containers.
pub open spec fn ps_run(all: bool, unread: Seq<ReplyView>) -> Run<
    Result<Seq<ContainerView>, ErrorView>,
> {
    exchange(RequestView::ListContainers { all }, unread).map(|reply: ReplyView| listed(reply))
}

/// Starting a container.
pub open spec fn start_run(container: Seq<char>, unread: Seq<ReplyView>) -> Run<
    Result<(), ErrorView>,
> {
    exchange(RequestView::StartContainer { container }, unread).map(
        |reply: ReplyView| carried_out(reply),
    )
}

/// Removing a container.
pub open spec fn remove_run(container: Seq<char>, unread: Seq<ReplyView>) -> Run<
    Result<(), ErrorView>,
> {
    exchange(RequestView::RemoveContainer { container }, unread).map(
        |reply: ReplyView| carried_out(reply),
    )
}

/// Running a command line in the host's shell.
pub open spec fn shell_run(command: Seq<char>, unread: Seq<ReplyView>) -> Run<
    Result<(bool, Seq<char>, Seq<char>), ErrorView>,
> {
    exchange(RequestView::Shell { command }, unread).map(|reply: ReplyView| ran(reply))
}

/// The command line that runs `cmd` in a shell inside a container.
pub open spec fn exec_command(container: Seq<char>, cmd: Seq<char>) -> Seq<char> {
    "docker exec -i "@ + container + " sh -c \""@ + cmd + "\""@
}

/// Running `cmd` inside a container: its output and its diagnostics,
/// whatever its exit status.
pub open spec fn exec_run(container: Seq<char>, cmd: Seq<char>, unread: Seq<ReplyView>) -> Run<
    Result<(Seq<char>, Seq<char>), ErrorView>,
> {
    shell_run(exec_command(container, cmd), unread).map(
        |r: Result<(bool, Seq<char>, Seq<char>), ErrorView>|
            match r {
                Ok(exit) => Ok((exit.1, exit.2)),
                Err(e) => Err(e),
            },
    )
}

/// The place among `list` of the first container with the identifier `id`.
pub open spec fn position_of(list: Seq<ContainerView>, id: Seq<char>) -> Option<int> {
    first_index(list, |c: ContainerView| c.id == id)
}

/// The message of the error for a created container that is not listed.
pub open spec fn not_listed(id: Seq<char>) -> Seq<char> {
    "not found created container: "@ + id
}

/// The record of the created container, or the error that it is not there.
pub open spec fn created_among(list: Seq<ContainerView>, id: Seq<char>) -> Result<
    ContainerView,
    ErrorView,
> {
    match position_of(list, id) {
        Some(i) => Ok(list[i]),
        None => Err(ErrorView::CreateError(not_listed(id))),
    }
}

/// Creating a container from an image: the runtime creates it and names
/// its identifier, and its record is then looked up among all containers.
pub open spec fn create_run(image: Seq<char>, unread: Seq<ReplyView>) -> Run<
    Result<ContainerView, ErrorView>,
> {
    exchange(RequestView::CreateContainer { image }, unread).and_then(
        |reply: ReplyView, rest: Seq<ReplyView>|
            match reply {
                ReplyView::Created(id) => ps_run(true, rest).map(
                    |all: Result<Seq<ContainerView>, ErrorView>|
                        match all {
                            Ok(list) => created_among(list, id),
                            Err(e) => Err(e),
                        },
                ),
                ReplyView::Failed(reason) => Run::Finished(
                    Err(ErrorView::DefaultError(reason)),
                    rest,
                ),
                _ => Run::Finished(Err(ErrorView::DefaultError(unexpected_reply())), rest),
            },
    )
}

/// How the working container of an image is told among the running
/// containers.
#[derive(Debug, Clone, Copy, PartialEq, Eq)]
pub enum MatchRule {
    /// By repository: a container works for an image when its own image
    /// comes from the same repository, whatever the tags. One working
    /// container then serves every tag of the image.
    Repository,
    /// By reference: a container works for an image when its own image has
    /// the very same reference, tag included.
    Exact,
}

/// The client of the container runtime, with the registry account that it
/// logs in to when a push is refused, and the rule by which it tells the
/// working container of an image.
#[derive(Debug, Clone, PartialEq, Eq)]
pub struct DockerClient {
    server: Option<String>,
    username: Option<String>,
    password: Option<String>,
    rule: MatchRule,
}

/// A registry account: server, user name and password.
pub struct Account {
    pub server: Seq<char>,
    pub username: Seq<char>,
    pub password: Seq<char>,
}

/// Runs a command line in the host's shell.
fn shell(session: &mut Session, command: String) -> (step: Step<
    Result<(bool, String, String), Error>,
>)
    ensures
        follows(step, final(session).unread(), shell_run(command@, old(session).unread())),
{
    let reply = match session.call(Request::Shell { command }) {
        Step::Ask(request) => {
            return Step::Ask(request);
        },
        Step::Done(reply) => reply,
    };
    Step::Done(
        match reply {
            Reply::Exit { success, stdout, stderr } => Ok(
                (*success, stdout.clone(), stderr.clone()),
            ),
            Reply::Failed(reason) => Err(Error::DefaultError(reason.clone())),
            _ => Err(unexpected()),
        },
    )
}

/// Reads a reply that reports nothing.
fn carry_out(session: &mut Session, request: Request) -> (step: Step<Result<(), Error>>)
    ensures
        follows(
            step,
            final(session).unread(),
            exchange(request.deep_view(), old(session).unread()).map(
                |reply: ReplyView| carried_out(reply),
            ),
        ),
{
    let reply = match session.call(request) {
        Step::Ask(request) => {
            return Step::Ask(request);
        },
        Step::Done(reply) => reply,
    };
    Step::Done(
        match reply {
            Reply::Done => Ok(()),
            Reply::Failed(reason) => Err(Error::DefaultError(reason.clone())),
            _ => Err(unexpected()),
        },
    )
}

/// Looks a created container up among all containers.
fn find_created(list: &Vec<Container>, id: &String) -> (r: Result<Container, Error>)
    ensures
        result_view(r) == created_among(list.deep_view(), id@),
{
    let mut i: usize = 0;
    let ghost all = list.deep_view();
    let ghost wanted = |c: ContainerView| c.id == id@;
    while i < list.len()
        invariant
            i <= list.len(),
            all == list.deep_view(),
            wanted == |c: ContainerView| c.id == id@,
            forall|j: int| 0 <= j < i ==> !wanted(#[trigger] all[j]),
        decreases list.len() - i,
    {
        if list[i].id == *id {
            proof {
                lemma_first_index_at(all, wanted, i as int);
            }
            return Ok(copy_container(&list[i]));
        }
        i += 1;
    }
    proof {
        lemma_first_index_none(all, wanted);
    }
    Err(Error::CreateError(String::from_str("not found created container: ").concat(id.as_str())))
}

impl DockerClient {
    /// The account that the client logs in with, if it has one.
    pub closed spec fn account(&self) -> Option<Account> {
        if self.server is Some && self.username is Some && self.password is Some {
            Some(
                Account {
                    server: self.server.unwrap()@,
                    username: self.username.unwrap()@,
                    password: self.password.unwrap()@,
                },
            )
        } else {
            None
        }
    }

    /// The rule by which the client tells the working container.
    pub closed spec fn rule(&self) -> MatchRule {
        self.rule
    }

    /// A client without an account, which matches by repository.
    pub fn new() -> (cli: DockerClient)
        ensures
            cli.account() is None,
            cli.rule() == MatchRule::Repository,
    {
        DockerClient { server: None, username: None, password: None, rule: MatchRule::Repository }
    }

    /// The same client with another rule for the working container.
    pub fn matching_by(self, rule: MatchRule) -> (cli: DockerClient)
        ensures
            cli.account() == self.account(),
            cli.rule() == rule,
    {
        DockerClient {
            server: self.server,
            username: self.username,
            password: self.password,
            rule,
        }
    }

    /// The rule by which the client tells the working container.
    pub fn match_rule(&self) -> (rule: MatchRule)
        ensures
            rule == self.rule(),
    {
        self.rule
    }

    /// A client that logs in to `server` as `username`, and matches by
    /// repository.
    pub fn new_with_logininfo(server: &str, username: &str, password: &str) -> (cli: DockerClient)
        ensures
            cli.account() == Some(
                Account { server: server@, username: username@, password: password@ },
            ),
            cli.rule() == MatchRule::Repository,
    {
        DockerClient {
            server: Some(String::from_str(server)),
            username: Some(String::from_str(username)),
            password: Some(String::from_str(password)),
            rule: MatchRule::Repository,
        }
    }

    /// Lists the running containers, or with `all` every container.
    pub fn ps(&self, session: &mut Session, all: bool) -> (step: Step<
        Result<Vec<Container>, Error>,
    >)
        ensures
            follows(step, final(session).unread(), ps_run(all, old(session).unread())),
    {
        let reply = match session.call(Request::ListContainers { all }) {
            Step::Ask(request) => {
                return Step::Ask(request);
            },
            Step::Done(reply) => reply,
        };
        Step::Done(
            match reply {
                Reply::Containers(list) => Ok(copy_containers(list)),
                Reply::Failed(reason) => Err(Error::DefaultError(reason.clone())),
                _ => Err(unexpected()),
            },
        )
    }

    /// Creates a container from `image` and returns its record.
    pub fn create(&self, session: &mut Session, image: &str) -> (step: Step<
        Result<Container, Error>,
    >)
        ensures
            follows(step, final(session).unread(), create_run(image@, old(session).unread())),
    {
        let request = Request::CreateContainer { image: String::from_str(image) };
        let reply = match session.call(request) {
            Step::Ask(request) => {
                return Step::Ask(request);
            },
            Step::Done(reply) => reply,
        };
        match reply {
            Reply::Created(id) => {
                match self.ps(session, true) {
                    Step::Ask(request) => Step::Ask(request),
                    Step::Done(Ok(list)) => Step::Done(find_created(&list, id)),
                    Step::Done(Err(e)) => Step::Done(Err(e)),
                }
            },
            Reply::Failed(reason) => Step::Done(Err(Error::DefaultError(reason.clone()))),
            _ => Step::Done(Err(unexpected())),
        }
    }

    /// Starts a container.
    pub fn start(&self, session: &mut Session, container: &str) -> (step: Step<Result<(), Error>>)
        ensures
            follows(step, final(session).unread(), start_run(container@, old(session).unread())),
    {
        carry_out(session, Request::StartContainer { container: String::from_str(container) })
    }

    /// Removes a container by force.
    pub fn remove(&self, session: &mut Session, container: &str) -> (step: Step<
        Result<(), Error>,
    >)
        ensures
            follows(step, final(session).unread(), remove_run(container@, old(session).unread())),
    {
        carry_out(session, Request::RemoveContainer { container: String::from_str(container) })
    }

    /// Runs `cmd` in a shell inside a container and returns what it printed
    /// on its output and on its diagnostic stream.
    pub fn exec(&self, session: &mut Session, container: &str, cmd: &str) -> (step: Step<
        Result<(String, String), Error>,
    >)
        ensures
            follows(
                step,
                final(session).unread(),
                exec_run(container@, cmd@, old(session).unread()),
            ),
    {
        let command = String::from_str("docker exec -i ").concat(container).concat(
            " sh -c \"",
        ).concat(cmd).concat("\"");
        match shell(session, command) {
            Step::Ask(request) => Step::Ask(request),
            Step::Done(Ok(exit)) => Step::Done(Ok((exit.1, exit.2))),
            Step::Done(Err(e)) => Step::Done(Err(e)),
        }
    }
}


/// The command line that commits a container as an image.
pub open spec fn commit_command(
    container: Seq<char>,
    message: Seq<char>,
    new_image: Seq<char>,
) -> Seq<char> {
    "docker commit -m \""@ + message + "\" "@ + container + " "@ + new_image
}

/// The command line that copies between the host and a container.
pub open spec fn copy_command(
    container: Seq<char>,
    to_container: bool,
    src: Seq<char>,
    dst: Seq<char>,
) -> Seq<char> {
    if to_container {
        "docker cp "@ + src + " "@ + container + ":"@ + dst
    } else {
        "docker cp "@ + container + ":"@ + src + " "@ + dst
    }
}

/// The command that removes a path and all below it.
pub open spec fn remove_file_command(path: Seq<char>) -> Seq<char> {
    "rm -rf "@ + path
}

/// The command line that pushes an image to its registry.
pub open spec fn push_command(image: Seq<char>) -> Seq<char> {
    "docker push "@ + image
}

/// The command line that logs in to a registry.
pub open spec fn login_command(account: Account) -> Seq<char> {
    "docker login "@ + account.server + " --username="@ + account.username + " --password="@
        + account.password
}

/// The command line that pulls an image from its registry.
pub open spec fn pull_command(image: Seq<char>) -> Seq<char> {
    "docker pull "@ + image
}

/// The command line that removes the local copy of an image.
pub open spec fn remove_image_command(image: Seq<char>) -> Seq<char> {
    "docker rmi "@ + image
}

/// The command line that flattens a container's filesystem into an image.
pub open spec fn squash_command(container: Seq<char>, new_image: Seq<char>) -> Seq<char> {
    "docker export "@ + container + " | docker import - "@ + new_image
}

/// What a command that reports only success or failure came to; `fail`
/// makes the error out of the command's diagnostics.
pub open spec fn settled(
    r: Result<(bool, Seq<char>, Seq<char>), ErrorView>,
    fail: spec_fn(Seq<char>) -> ErrorView,
) -> Result<(), ErrorView> {
    match r {
        Ok(exit) => if exit.0 {
            Ok(())
        } else {
            Err(fail(exit.2))
        },
        Err(e) => Err(e),
    }
}

/// Committing a container as `new_image`.
pub open spec fn commit_run(
    container: Seq<char>,
    message: Seq<char>,
    new_image: Seq<char>,
    unread: Seq<ReplyView>,
) -> Run<Result<(), ErrorView>> {
    shell_run(commit_command(container, message, new_image), unread).map(
        |r: Result<(bool, Seq<char>, Seq<char>), ErrorView>|
            settled(r, |text: Seq<char>| ErrorView::CommitError(text)),
    )
}

/// Copying between the host and a container.
pub open spec fn copy_run(
    container: Seq<char>,
    to_container: bool,
    src: Seq<char>,
    dst: Seq<char>,
    unread: Seq<ReplyView>,
) -> Run<Result<(), ErrorView>> {
    shell_run(copy_command(container, to_container, src, dst), unread).map(
        |r: Result<(bool, Seq<char>, Seq<char>), ErrorView>|
            settled(r, |text: Seq<char>| ErrorView::CopyError(text)),
    )
}

/// Removing a path inside a container. Diagnostics are not looked at.
pub open spec fn remove_file_run(
    container: Seq<char>,
    path: Seq<char>,
    unread: Seq<ReplyView>,
) -> Run<Result<(), ErrorView>> {
    exec_run(container, remove_file_command(path), unread).map(
        |r: Result<(Seq<char>, Seq<char>), ErrorView>|
            match r {
                Ok(_) => Ok(()),
                Err(e) => Err(e),
            },
    )
}

/// Pulling an image.
pub open spec fn pull_run(image: Seq<char>, unread: Seq<ReplyView>) -> Run<Result<(), ErrorView>> {
    shell_run(pull_command(image), unread).map(
        |r: Result<(bool, Seq<char>, Seq<char>), ErrorView>|
            settled(r, |text: Seq<char>| ErrorView::DefaultError(text)),
    )
}

/// Removing the local copy of an image.
pub open spec fn remove_image_run(image: Seq<char>, unread: Seq<ReplyView>) -> Run<
    Result<(), ErrorView>,
> {
    shell_run(remove_image_command(image), unread).map(
        |r: Result<(bool, Seq<char>, Seq<char>), ErrorView>|
            settled(r, |text: Seq<char>| ErrorView::DefaultError(text)),
    )
}

/// Pushing an image. A push that succeeds ends it. One that fails ends it
/// with `PushError` where the client has no account; with an account the
/// client logs in, which ends it with `LoginError` on failure, and pushes
/// once more, and that second push decides.
pub open spec fn push_run(
    account: Option<Account>,
    image: Seq<char>,
    unread: Seq<ReplyView>,
) -> Run<Result<(), ErrorView>> {
    attempt(
        shell_run(push_command(image), unread),
        |e: ErrorView| e,
        |first: (bool, Seq<char>, Seq<char>), rest: Seq<ReplyView>|
            if first.0 {
                Run::Finished(Ok(()), rest)
            } else {
                match account {
                    None => Run::Finished(Err(ErrorView::PushError(first.2)), rest),
                    Some(known) => attempt(
                        shell_run(login_command(known), rest),
                        |e: ErrorView| e,
                        |login: (bool, Seq<char>, Seq<char>), after: Seq<ReplyView>|
                            if !login.0 {
                                Run::Finished(Err(ErrorView::LoginError(login.2)), after)
                            } else {
                                shell_run(push_command(image), after).map(
                                    |r: Result<(bool, Seq<char>, Seq<char>), ErrorView>|
                                        settled(r, |text: Seq<char>| ErrorView::PushError(text)),
                                )
                            },
                    ),
                }
            },
    )
}

/// Flattening `image` into `new_image`: a container is created from the
/// image, its filesystem is exported and imported as the new image, and
/// the container is removed again whether or not that worked. How the
/// removal went does not matter.
pub open spec fn squash_run(image: Seq<char>, new_image: Seq<char>, unread: Seq<ReplyView>) -> Run<
    Result<(), ErrorView>,
> {
    attempt(
        create_run(image, unread),
        |e: ErrorView| e,
        |created: ContainerView, rest: Seq<ReplyView>|
            attempt(
                shell_run(squash_command(created.id, new_image), rest),
                |e: ErrorView| e,
                |exit: (bool, Seq<char>, Seq<char>), after: Seq<ReplyView>|
                    remove_run(created.id, after).map(
                        |removed: Result<(), ErrorView>|
                            if exit.0 {
                                Ok(())
                            } else {
                                Err(ErrorView::SquashError(exit.2))
                            },
                    ),
            ),
    )
}

/// Copies between the host and a container: into it with `to_container`,
/// out of it without.
fn copy(session: &mut Session, container: &str, to_container: bool, src: &str, dst: &str) -> (step:
    Step<Result<(), Error>>)
    ensures
        follows(
            step,
            final(session).unread(),
            copy_run(container@, to_container, src@, dst@, old(session).unread()),
        ),
{
    let command = if to_container {
        String::from_str("docker cp ").concat(src).concat(" ").concat(container).concat(":").concat(
            dst,
        )
    } else {
        String::from_str("docker cp ").concat(container).concat(":").concat(src).concat(" ").concat(
            dst,
        )
    };
    match shell(session, command) {
        Step::Ask(request) => Step::Ask(request),
        Step::Done(Ok(exit)) => if exit.0 {
            Step::Done(Ok(()))
        } else {
            Step::Done(Err(Error::CopyError(exit.2)))
        },
        Step::Done(Err(e)) => Step::Done(Err(e)),
    }
}

impl DockerClient {
    /// Copies a file or directory of the host into a container.
    pub fn copy_in(&self, session: &mut Session, container: &str, src: &str, dst: &str) -> (step:
        Step<Result<(), Error>>)
        ensures
            follows(
                step,
                final(session).unread(),
                copy_run(container@, true, src@, dst@, old(session).unread()),
            ),
    {
        copy(session, container, true, src, dst)
    }

    /// Copies a file or directory of a container to the host.
    pub fn copy_out(&self, session: &mut Session, container: &str, src: &str, dst: &str) -> (step:
        Step<Result<(), Error>>)
        ensures
            follows(
                step,
                final(session).unread(),
                copy_run(container@, false, src@, dst@, old(session).unread()),
            ),
    {
        copy(session, container, false, src, dst)
    }

    /// Removes a path, and all below it, inside a container.
    pub fn remove_file(&self, session: &mut Session, container: &str, path: &str) -> (step: Step<
        Result<(), Error>,
    >)
        ensures
            follows(
                step,
                final(session).unread(),
                remove_file_run(container@, path@, old(session).unread()),
            ),
    {
        let cmd = String::from_str("rm -rf ").concat(path);
        match self.exec(session, container, cmd.as_str()) {
            Step::Ask(request) => Step::Ask(request),
            Step::Done(Ok(_)) => Step::Done(Ok(())),
            Step::Done(Err(e)) => Step::Done(Err(e)),
        }
    }

    /// Commits the state of a container as the image `new_image`.
    pub fn commit(
        &self,
        session: &mut Session,
        container: &str,
        message: &str,
        new_image: &str,
    ) -> (step: Step<Result<(), Error>>)
        ensures
            follows(
                step,
                final(session).unread(),
                commit_run(container@, message@, new_image@, old(session).unread()),
            ),
    {
        let command = String::from_str("docker commit -m \"").concat(message).concat("\" ").concat(
            container,
        ).concat(" ").concat(new_image);
        match shell(session, command) {
            Step::Ask(request) => Step::Ask(request),
            Step::Done(Ok(exit)) => if exit.0 {
                Step::Done(Ok(()))
            } else {
                Step::Done(Err(Error::CommitError(exit.2)))
            },
            Step::Done(Err(e)) => Step::Done(Err(e)),
        }
    }

    /// Pulls an image from its registry.
    pub fn pull(&self, session: &mut Session, image: &str) -> (step: Step<Result<(), Error>>)
        ensures
            follows(step, final(session).unread(), pull_run(image@, old(session).unread())),
    {
        let command = String::from_str("docker pull ").concat(image);
        match shell(session, command) {
            Step::Ask(request) => Step::Ask(request),
            Step::Done(Ok(exit)) => if exit.0 {
                Step::Done(Ok(()))
            } else {
                Step::Done(Err(Error::DefaultError(exit.2)))
            },
            Step::Done(Err(e)) => Step::Done(Err(e)),
        }
    }

    /// Removes the local copy of an image.
    pub fn remove_image(&self, session: &mut Session, image: &str) -> (step: Step<
        Result<(), Error>,
    >)
        ensures
            follows(step, final(session).unread(), remove_image_run(image@, old(session).unread())),
    {
        let command = String::from_str("docker rmi ").concat(image);
        match shell(session, command) {
            Step::Ask(request) => Step::Ask(request),
            Step::Done(Ok(exit)) => if exit.0 {
                Step::Done(Ok(()))
            } else {
                Step::Done(Err(Error::DefaultError(exit.2)))
            },
            Step::Done(Err(e)) => Step::Done(Err(e)),
        }
    }

    /// Pushes an image to its registry, logging in and pushing once more
    /// where the first push is refused and the client has an account.
    pub fn push(&self, session: &mut Session, image: &str) -> (step: Step<Result<(), Error>>)
        ensures
            follows(
                step,
                final(session).unread(),
                push_run(self.account(), image@, old(session).unread()),
            ),
    {
        let first = match shell(session, String::from_str("docker push ").concat(image)) {
            Step::Ask(request) => {
                return Step::Ask(request);
            },
            Step::Done(Err(e)) => {
                return Step::Done(Err(e));
            },
            Step::Done(Ok(exit)) => exit,
        };
        if first.0 {
            return Step::Done(Ok(()));
        }
        let login_command = match (&self.server, &self.username, &self.password) {
            (Some(server), Some(username), Some(password)) => String::from_str(
                "docker login ",
            ).concat(server.as_str()).concat(" --username=").concat(username.as_str()).concat(
                " --password=",
            ).concat(password.as_str()),
            _ => {
                return Step::Done(Err(Error::PushError(first.2)));
            },
        };
        let login = match shell(session, login_command) {
            Step::Ask(request) => {
                return Step::Ask(request);
            },
            Step::Done(Err(e)) => {
                return Step::Done(Err(e));
            },
            Step::Done(Ok(exit)) => exit,
        };
        if !login.0 {
            return Step::Done(Err(Error::LoginError(login.2)));
        }
        match shell(session, String::from_str("docker push ").concat(image)) {
            Step::Ask(request) => Step::Ask(request),
            Step::Done(Ok(exit)) => if exit.0 {
                Step::Done(Ok(()))
            } else {
                Step::Done(Err(Error::PushError(exit.2)))
            },
            Step::Done(Err(e)) => Step::Done(Err(e)),
        }
    }

    /// Flattens the layers of `image` into the single layer of `new_image`.
    pub fn squash(&self, session: &mut Session, image: &str, new_image: &str) -> (step: Step<
        Result<(), Error>,
    >)
        ensures
            follows(
                step,
                final(session).unread(),
                squash_run(image@, new_image@, old(session).unread()),
            ),
    {
        let created = match self.create(session, image) {
            Step::Ask(request) => {
                return Step::Ask(request);
            },
            Step::Done(Err(e)) => {
                return Step::Done(Err(e));
            },
            Step::Done(Ok(c)) => c,
        };
        let command = String::from_str("docker export ").concat(created.id.as_str()).concat(
            " | docker import - ",
        ).concat(new_image);
        let exit = match shell(session, command) {
            Step::Ask(request) => {
                return Step::Ask(request);
            },
            Step::Done(Err(e)) => {
                return Step::Done(Err(e));
            },
            Step::Done(Ok(exit)) => exit,
        };
        match self.remove(session, created.id.as_str()) {
            Step::Ask(request) => Step::Ask(request),
            Step::Done(_) => if exit.0 {
                Step::Done(Ok(()))
            } else {
                Step::Done(Err(Error::SquashError(exit.2)))
            },
        }
    }
}

} // verus!

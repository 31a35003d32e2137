//! The store: entries and their items, kept in the working container of
//! an image and published by committing and pushing that image.

use crate::compare_items;
use crate::containeritem;
use crate::containeritem::{read_run, ContainerItem};
use crate::digest::sha256;
use crate::dockerclient;
use crate::dockerclient::{
    commit_run, copy_run, exec_run, pull_run, push_run, remove_image_run, unexpected,
    unexpected_reply, Account, ContainerView, DockerClient, MatchRule,
};
use crate::hexcode::{encode, hex_text};
use crate::hostitem;
use crate::hostitem::{staged, HostEntry, HostEntryView, HostItem, HostItemView};
use crate::layout::{
    data_dir, data_path, data_root, ensure_and_list_command, entry_dir, item_path, list_command,
    mirror, remove_command, signature_command, write_ledger_command,
};
use crate::runtime::{
    attempt, exchange, follows, Reply, ReplyView, Request, RequestView, Run, Session, Step,
};
use crate::text::{split, trim, trimmed, words, Separator};
use crate::utils::{get_or_run, get_or_run_run, run, run_run};
use crate::{AddResult, AddResultView, Item, DB};
use vstd::prelude::*;
use vstd::string::*;

verus! {

/// Why an operation of the store failed.
#[derive(Debug, Clone, PartialEq, Eq)]
pub enum Error {
    /// There is nothing at the host path that was to be added.
    NotExistItem(String),
    /// The store holds no entry of this name. No operation here returns
    /// it: what a listing says of a missing entry comes back as
    /// `ExecError`. It is for callers that tell a missing entry themselves.
    NotFoundEntry(String),
    /// The runtime failed.
    DockerError(dockerclient::Error),
    /// A command in the container printed diagnostics, which are the
    /// text. This counts as failure whatever the command's exit status.
    ExecError(String),
    /// The host path could not be staged.
    HostItemError(hostitem::Error),
    /// An item of the store could not be read.
    ContainerItemError(containeritem::Error),
}

/// An error of the store as a contract sees it.
pub enum ErrorView {
    NotExistItem(Seq<char>),
    NotFoundEntry(Seq<char>),
    DockerError(dockerclient::ErrorView),
    ExecError(Seq<char>),
    HostItemError(hostitem::ErrorView),
    ContainerItemError(containeritem::ErrorView),
}

impl DeepView for Error {
    type V = ErrorView;

    open spec fn deep_view(&self) -> ErrorView {
        match *self {
            Error::NotExistItem(path) => ErrorView::NotExistItem(path@),
            Error::NotFoundEntry(entry) => ErrorView::NotFoundEntry(entry@),
            Error::DockerError(e) => ErrorView::DockerError(e.deep_view()),
            Error::ExecError(text) => ErrorView::ExecError(text@),
            Error::HostItemError(e) => ErrorView::HostItemError(e.deep_view()),
            Error::ContainerItemError(e) => ErrorView::ContainerItemError(e.deep_view()),
        }
    }
}

impl Error {
    /// The error as one line of text, which is the same for every error.
    pub fn to_text(&self) -> (text: String)
        ensures
            text@ == "imagedrive error"@,
    {
        String::from_str("imagedrive error")
    }
}

/// A failure of the runtime as a failure of the store.
pub open spec fn runtime_failure() -> spec_fn(dockerclient::ErrorView) -> ErrorView {
    |e: dockerclient::ErrorView| ErrorView::DockerError(e)
}

/// What a command in the container came to: its output, unless it
/// printed diagnostics.
pub open spec fn clean_output(printed: (Seq<char>, Seq<char>)) -> Result<Seq<char>, ErrorView> {
    if printed.1.len() != 0 {
        Err(ErrorView::ExecError(printed.1))
    } else {
        Ok(printed.0)
    }
}

/// Running a command in a container and taking its output, with
/// diagnostics counted as failure.
pub open spec fn output_run(container: Seq<char>, cmd: Seq<char>, unread: Seq<ReplyView>) -> Run<
    Result<Seq<char>, ErrorView>,
> {
    attempt(
        exec_run(container, cmd, unread),
        runtime_failure(),
        |printed: (Seq<char>, Seq<char>), rest: Seq<ReplyView>|
            Run::Finished(clean_output(printed), rest),
    )
}

/// Listing a directory in the working container of `image`: the names
/// that the listing prints, an empty listing giving no names.
pub open spec fn ls_run(
    rule: MatchRule,
    image: Seq<char>,
    dir: Seq<char>,
    unread: Seq<ReplyView>,
) -> Run<Result<Seq<Seq<char>>, ErrorView>> {
    attempt(
        get_or_run_run(rule, image, unread),
        runtime_failure(),
        |working: ContainerView, rest: Seq<ReplyView>|
            output_run(working.id, list_command(dir), rest).map(
                |r: Result<Seq<char>, ErrorView>|
                    match r {
                        Ok(output) => Ok(words(output)),
                        Err(e) => Err(e),
                    },
            ),
    )
}

/// Listing the entries of the store.
pub open spec fn entries_run(rule: MatchRule, image: Seq<char>, unread: Seq<ReplyView>) -> Run<
    Result<Seq<Seq<char>>, ErrorView>,
> {
    ls_run(rule, image, data_root(), unread)
}

/// Listing the items of an entry: the one listing of the entry's
/// directory. An entry that the store does not hold is an error and never
/// an empty list: the listing then prints diagnostics, and these end it
/// with `ExecError`.
pub open spec fn items_run(
    rule: MatchRule,
    image: Seq<char>,
    entry: Seq<char>,
    unread: Seq<ReplyView>,
) -> Run<Result<Seq<Seq<char>>, ErrorView>> {
    ls_run(rule, image, data_dir(entry), unread)
}

/// What is to be added: where it lies on the host, the name it is to be
/// stored under, and the digest of its content.
pub struct Candidate {
    pub path: Seq<char>,
    pub id: Seq<char>,
    pub digest: Seq<u8>,
}

/// The candidate that a staged item makes.
pub open spec fn candidate_of(item: HostItemView) -> Candidate {
    Candidate { path: item.path, id: item.id, digest: sha256(item.chunks.flatten()) }
}

/// Storing the candidate under `entry`: its content is copied to its
/// place in the data tree, and its ledger record is written.
pub open spec fn store_run(
    working: Seq<char>,
    entry: Seq<char>,
    candidate: Candidate,
    unread: Seq<ReplyView>,
) -> Run<Result<AddResultView, ErrorView>> {
    attempt(
        copy_run(working, true, candidate.path, data_path(entry, candidate.id), unread),
        runtime_failure(),
        |copied: (), rest: Seq<ReplyView>|
            output_run(
                working,
                write_ledger_command(entry, candidate.id, hex_text(candidate.digest)),
                rest,
            ).map(
                |r: Result<Seq<char>, ErrorView>|
                    match r {
                        Ok(_) => Ok(AddResultView::Succ),
                        Err(e) => Err(e),
                    },
            ),
    )
}

/// Looking for the candidate's content among the items `names` of
/// `entry`, in that order. Each item is read in turn. The first one with
/// the candidate's digest ends the search with `ExistedItem` and its name,
/// and nothing is copied. An item that cannot be read ends it with the
/// error. When no item is left the candidate is stored.
pub open spec fn scan_run(
    rule: MatchRule,
    image: Seq<char>,
    working: Seq<char>,
    entry: Seq<char>,
    candidate: Candidate,
    names: Seq<Seq<char>>,
    unread: Seq<ReplyView>,
) -> Run<Result<AddResultView, ErrorView>>
    decreases names.len(),
{
    if names.len() == 0 {
        store_run(working, entry, candidate, unread)
    } else {
        match read_run(rule, data_path(entry, names[0]), image, unread) {
            Run::Blocked(request) => Run::Blocked(request),
            Run::Finished(Err(e), rest) => Run::Finished(
                Err(ErrorView::ContainerItemError(e)),
                rest,
            ),
            Run::Finished(Ok(stored), rest) => if stored.digest == candidate.digest {
                Run::Finished(Ok(AddResultView::ExistedItem(stored.id)), rest)
            } else {
                scan_run(rule, image, working, entry, candidate, names.drop_first(), rest)
            },
        }
    }
}

/// Adding a staged item under `entry`: the working container is found,
/// the entry's directory is made sure of and listed, and the listing is
/// searched for the item's content.
pub open spec fn place_run(
    rule: MatchRule,
    image: Seq<char>,
    entry: Seq<char>,
    candidate: Candidate,
    unread: Seq<ReplyView>,
) -> Run<Result<AddResultView, ErrorView>> {
    attempt(
        get_or_run_run(rule, image, unread),
        runtime_failure(),
        |working: ContainerView, rest: Seq<ReplyView>|
            attempt(
                output_run(working.id, ensure_and_list_command(data_dir(entry)), rest),
                |e: ErrorView| e,
                |listing: Seq<char>, after: Seq<ReplyView>|
                    scan_run(rule, image, working.id, entry, candidate, words(listing), after),
            ),
    )
}

/// What the reply to reading the host path means for an addition: the
/// item to add, or the error that ends the addition.
pub open spec fn candidate_from(
    itempath: Seq<char>,
    rename: Option<Seq<char>>,
    reply: ReplyView,
) -> Result<Candidate, ErrorView> {
    match reply {
        ReplyView::Host(HostEntryView::Missing) => Err(ErrorView::NotExistItem(itempath)),
        ReplyView::Host(found) => match staged(itempath, rename, found) {
            Ok(item) => Ok(candidate_of(item)),
            Err(e) => Err(ErrorView::HostItemError(e)),
        },
        ReplyView::Failed(reason) => Err(
            ErrorView::HostItemError(hostitem::ErrorView::IOError(reason)),
        ),
        _ => Err(
            ErrorView::DockerError(dockerclient::ErrorView::DefaultError(unexpected_reply())),
        ),
    }
}

/// Adding what lies at `itempath` on the host under `entry`. The host path
/// is read first: nothing there ends it with `NotExistItem`, and what
/// cannot be staged with `HostItemError`. The staged item is then placed.
pub open spec fn add_run(
    rule: MatchRule,
    image: Seq<char>,
    entry: Seq<char>,
    itempath: Seq<char>,
    rename: Option<Seq<char>>,
    unread: Seq<ReplyView>,
) -> Run<Result<AddResultView, ErrorView>> {
    exchange(RequestView::ReadHost { path: itempath }, unread).and_then(
        |reply: ReplyView, rest: Seq<ReplyView>|
            match candidate_from(itempath, rename, reply) {
                Err(e) => Run::Finished(Err(e), rest),
                Ok(candidate) => place_run(rule, image, entry, candidate, rest),
            },
    )
}

/// What a deletion removes: the whole entry, or one item of it.
pub open spec fn target(entry: Seq<char>, item: Option<Seq<char>>) -> Seq<char> {
    match item {
        None => data_dir(entry),
        Some(id) => data_path(entry, id),
    }
}

/// Deleting an entry or one of its items: one command in the working
/// container removes the data and, with it, its mirror in the ledger.
pub open spec fn delete_run(
    rule: MatchRule,
    image: Seq<char>,
    entry: Seq<char>,
    item: Option<Seq<char>>,
    unread: Seq<ReplyView>,
) -> Run<Result<(), ErrorView>> {
    attempt(
        get_or_run_run(rule, image, unread),
        runtime_failure(),
        |working: ContainerView, rest: Seq<ReplyView>|
            output_run(working.id, remove_command(target(entry, item)), rest).map(
                |r: Result<Seq<char>, ErrorView>|
                    match r {
                        Ok(_) => Ok(()),
                        Err(e) => Err(e),
                    },
            ),
    )
}

/// A result of the runtime as a result of the store.
pub open spec fn wrapped(r: Result<(), dockerclient::ErrorView>) -> Result<(), ErrorView> {
    match r {
        Ok(_) => Ok(()),
        Err(e) => Err(ErrorView::DockerError(e)),
    }
}

/// Exporting an entry: all that lies under it in the working container is
/// copied to the directory `dir` of the host.
pub open spec fn export_run(
    rule: MatchRule,
    image: Seq<char>,
    dir: Seq<char>,
    entry: Seq<char>,
    unread: Seq<ReplyView>,
) -> Run<Result<(), ErrorView>> {
    attempt(
        get_or_run_run(rule, image, unread),
        runtime_failure(),
        |working: ContainerView, rest: Seq<ReplyView>|
            copy_run(working.id, false, data_dir(entry), dir, rest).map(
                |r: Result<(), dockerclient::ErrorView>| wrapped(r),
            ),
    )
}

/// Reading the signature of a container's ledger: all its records,
/// sorted, as one text without the white space around it.
pub open spec fn checksum_run(container: Seq<char>, unread: Seq<ReplyView>) -> Run<
    Result<Seq<char>, ErrorView>,
> {
    output_run(container, signature_command(), unread).map(
        |r: Result<Seq<char>, ErrorView>|
            match r {
                Ok(output) => Ok(trimmed(output)),
                Err(e) => Err(e),
            },
    )
}

/// Whether two ledger signatures tell of different contents.
pub open spec fn diverged(working: Seq<char>, published: Seq<char>) -> bool {
    working != published
}

/// Comparing the working container with the published image: the working
/// container is found, a fresh container is created from the image and
/// started, and the ledger signatures of the two are read and compared.
pub open spec fn diff_run(
    rule: MatchRule,
    image: Seq<char>,
    unread: Seq<ReplyView>,
) -> Run<Result<bool, ErrorView>> {
    attempt(
        get_or_run_run(rule, image, unread),
        runtime_failure(),
        |working: ContainerView, r1: Seq<ReplyView>|
            attempt(
                run_run(image, r1),
                runtime_failure(),
                |fresh: ContainerView, r2: Seq<ReplyView>|
                    attempt(
                        checksum_run(working.id, r2),
                        |e: ErrorView| e,
                        |mine: Seq<char>, r3: Seq<ReplyView>|
                            checksum_run(fresh.id, r3).map(
                                |r: Result<Seq<char>, ErrorView>|
                                    match r {
                                        Ok(published) => Ok(diverged(mine, published)),
                                        Err(e) => Err(e),
                                    },
                            ),
                    ),
            ),
    )
}

/// The message of the commit that a synchronisation makes.
pub open spec fn commit_message() -> Seq<char> {
    "commit by sync"@
}

/// Pushing the image, as the last step of a synchronisation.
pub open spec fn publish_run(
    account: Option<Account>,
    image: Seq<char>,
    unread: Seq<ReplyView>,
) -> Run<Result<(), ErrorView>> {
    push_run(account, image, unread).map(|r: Result<(), dockerclient::ErrorView>| wrapped(r))
}

/// Synchronising the registry with the working container: the working
/// container is found and compared with the published image; where they
/// differ its state is committed as the image; and the image is pushed,
/// whether or not anything was committed.
pub open spec fn sync_run(
    rule: MatchRule,
    account: Option<Account>,
    image: Seq<char>,
    unread: Seq<ReplyView>,
) -> Run<Result<(), ErrorView>> {
    attempt(
        get_or_run_run(rule, image, unread),
        runtime_failure(),
        |working: ContainerView, r1: Seq<ReplyView>|
            attempt(
                diff_run(rule, image, r1),
                |e: ErrorView| e,
                |changed: bool, r2: Seq<ReplyView>|
                    if changed {
                        attempt(
                            commit_run(working.id, commit_message(), image, r2),
                            runtime_failure(),
                            |done: (), r3: Seq<ReplyView>| publish_run(account, image, r3),
                        )
                    } else {
                        publish_run(account, image, r2)
                    },
            ),
    )
}

/// Overwriting the local image with the registry's: the local copy is
/// removed, which may fail without consequence, and the image is pulled.
pub open spec fn sync_from_remote_run(image: Seq<char>, unread: Seq<ReplyView>) -> Run<
    Result<(), ErrorView>,
> {
    remove_image_run(image, unread).and_then(
        |removed: Result<(), dockerclient::ErrorView>, rest: Seq<ReplyView>|
            pull_run(image, rest).map(|r: Result<(), dockerclient::ErrorView>| wrapped(r)),
    )
}

/// Runs a command in a container and takes its output, counting
/// diagnostics as failure.
fn output(cli: &DockerClient, session: &mut Session, container: &str, cmd: &str) -> (step: Step<
    Result<String, Error>,
>)
    ensures
        follows(
            step,
            final(session).unread(),
            output_run(container@, cmd@, old(session).unread()),
        ),
{
    match cli.exec(session, container, cmd) {
        Step::Ask(request) => Step::Ask(request),
        Step::Done(Err(e)) => Step::Done(Err(Error::DockerError(e))),
        Step::Done(Ok(printed)) => if !printed.1.as_str().is_empty() {
            Step::Done(Err(Error::ExecError(printed.1)))
        } else {
            Step::Done(Ok(printed.0))
        },
    }
}

/// Lists a directory in the working container of `image`.
pub fn ls(cli: &DockerClient, session: &mut Session, image: &str, dir: &str) -> (step: Step<
    Result<Vec<String>, Error>,
>)
    ensures
        follows(
            step,
            final(session).unread(),
            ls_run(cli.rule(), image@, dir@, old(session).unread()),
        ),
{
    let working = match get_or_run(cli, session, image) {
        Step::Ask(request) => {
            return Step::Ask(request);
        },
        Step::Done(Err(e)) => {
            return Step::Done(Err(Error::DockerError(e)));
        },
        Step::Done(Ok(c)) => c,
    };
    let command = String::from_str("ls ").concat(dir);
    match output(cli, session, working.id.as_str(), command.as_str()) {
        Step::Ask(request) => Step::Ask(request),
        Step::Done(Err(e)) => Step::Done(Err(e)),
        Step::Done(Ok(listing)) => Step::Done(Ok(split(listing.as_str(), Separator::Whitespace))),
    }
}

/// A store kept in the working container of an image.
pub struct ImageDrive {
    image_name: String,
    dockercli: DockerClient,
}

impl ImageDrive {
    /// The image that the store is published as.
    pub closed spec fn image(&self) -> Seq<char> {
        self.image_name@
    }

    /// The registry account that the store pushes with.
    pub closed spec fn account(&self) -> Option<Account> {
        self.dockercli.account()
    }

    /// The rule by which the store tells its working container.
    pub closed spec fn rule(&self) -> MatchRule {
        self.dockercli.rule()
    }

    /// A store published as `image_name`, which logs in to `server` as
    /// `username` where a push is refused. Its working container is any
    /// running container of the image's repository.
    pub fn new(
        image_name: &str,
        server: &str,
        username: &str,
        password: &str,
    ) -> (drive: ImageDrive)
        ensures
            drive.image() == image_name@,
            drive.account() == Some(
                Account { server: server@, username: username@, password: password@ },
            ),
            drive.rule() == MatchRule::Repository,
    {
        ImageDrive {
            image_name: String::from_str(image_name),
            dockercli: DockerClient::new_with_logininfo(server, username, password),
        }
    }

    /// The store as one line of text: `imagedrive: ` and its image.
    pub fn to_text(&self) -> (text: String)
        ensures
            text@ == "imagedrive: "@ + self.image(),
    {
        String::from_str("imagedrive: ").concat(self.image_name.as_str())
    }

    /// The same store with another rule for its working container.
    pub fn matching_by(self, rule: MatchRule) -> (drive: ImageDrive)
        ensures
            drive.image() == self.image(),
            drive.account() == self.account(),
            drive.rule() == rule,
    {
        ImageDrive { image_name: self.image_name, dockercli: self.dockercli.matching_by(rule) }
    }

    /// Reads the signature of a container's ledger.
    pub fn get_checksum_str(&self, session: &mut Session, container: &str) -> (step: Step<
        Result<String, Error>,
    >)
        ensures
            follows(
                step,
                final(session).unread(),
                checksum_run(container@, old(session).unread()),
            ),
    {
        match output(&self.dockercli, session, container, "cat /checksum/data/*/* | sort") {
            Step::Ask(request) => Step::Ask(request),
            Step::Done(Err(e)) => Step::Done(Err(e)),
            Step::Done(Ok(printed)) => Step::Done(Ok(trim(printed.as_str()))),
        }
    }

    /// Tells whether the working container differs from the published
    /// image.
    pub fn diff_container_with_image(&self, session: &mut Session) -> (step: Step<
        Result<bool, Error>,
    >)
        ensures
            follows(
                step,
                final(session).unread(),
                diff_run(self.rule(), self.image(), old(session).unread()),
            ),
    {
        let working = match get_or_run(&self.dockercli, session, self.image_name.as_str()) {
            Step::Ask(request) => {
                return Step::Ask(request);
            },
            Step::Done(Err(e)) => {
                return Step::Done(Err(Error::DockerError(e)));
            },
            Step::Done(Ok(c)) => c,
        };
        let fresh = match run(&self.dockercli, session, self.image_name.as_str()) {
            Step::Ask(request) => {
                return Step::Ask(request);
            },
            Step::Done(Err(e)) => {
                return Step::Done(Err(Error::DockerError(e)));
            },
            Step::Done(Ok(c)) => c,
        };
        let mine = match self.get_checksum_str(session, working.id.as_str()) {
            Step::Ask(request) => {
                return Step::Ask(request);
            },
            Step::Done(Err(e)) => {
                return Step::Done(Err(e));
            },
            Step::Done(Ok(text)) => text,
        };
        match self.get_checksum_str(session, fresh.id.as_str()) {
            Step::Ask(request) => Step::Ask(request),
            Step::Done(Err(e)) => Step::Done(Err(e)),
            Step::Done(Ok(published)) => Step::Done(Ok(mine != published)),
        }
    }

    /// Places a staged item under `entry`.
    fn place(&self, session: &mut Session, entry: &str, item: &mut HostItem) -> (step: Step<
        Result<AddResult, Error>,
    >)
        ensures
            follows(
                step,
                final(session).unread(),
                place_run(
                    self.rule(),
                    self.image(),
                    entry@,
                    candidate_of(old(item).deep_view()),
                    old(session).unread(),
                ),
            ),
    {
        let image = self.image_name.as_str();
        let working = match get_or_run(&self.dockercli, session, image) {
            Step::Ask(request) => {
                return Step::Ask(request);
            },
            Step::Done(Err(e)) => {
                return Step::Done(Err(Error::DockerError(e)));
            },
            Step::Done(Ok(c)) => c,
        };
        let dir = entry_dir(entry);
        let command = String::from_str("mkdir -p ").concat(dir.as_str()).concat(" && ls ").concat(
            dir.as_str(),
        );
        let cli = &self.dockercli;
        let listing = match output(cli, session, working.id.as_str(), command.as_str()) {
            Step::Ask(request) => {
                return Step::Ask(request);
            },
            Step::Done(Err(e)) => {
                return Step::Done(Err(e));
            },
            Step::Done(Ok(listing)) => listing,
        };
        let names = split(listing.as_str(), Separator::Whitespace);
        let ghost candidate = candidate_of(old(item).deep_view());
        let ghost all = names.deep_view();
        let mut i: usize = 0;
        assert(all.skip(0) =~= all);
        while i < names.len()
            invariant
                i <= names.len(),
                all == names.deep_view(),
                image@ == self.image(),
                cli.rule() == self.rule(),
                candidate == candidate_of(old(item).deep_view()),
                candidate == (Candidate {
                    path: item.source(),
                    id: item.name(),
                    digest: item.digest(),
                }),
                place_run(self.rule(), self.image(), entry@, candidate, old(session).unread())
                    == scan_run(
                    self.rule(),
                    self.image(),
                    working.id@,
                    entry@,
                    candidate,
                    all.skip(i as int),
                    session.unread(),
                ),
            decreases names.len() - i,
        {
            assert(all.skip(i as int)[0] == names[i as int]@);
            assert(all.skip(i as int).drop_first() =~= all.skip(i + 1));
            let path = item_path(entry, names[i].as_str());
            let mut stored = match ContainerItem::read(cli, session, path.as_str(), image) {
                Step::Ask(request) => {
                    return Step::Ask(request);
                },
                Step::Done(Err(e)) => {
                    return Step::Done(Err(Error::ContainerItemError(e)));
                },
                Step::Done(Ok(stored)) => stored,
            };
            if compare_items(&mut stored, item) {
                return Step::Done(Ok(AddResult::ExistedItem(String::from_str(stored.id()))));
            }
            i += 1;
        }
        let destination = item_path(entry, item.id());
        match self.dockercli.copy_in(
            session,
            working.id.as_str(),
            item.srcpath(),
            destination.as_str(),
        ) {
            Step::Ask(request) => {
                return Step::Ask(request);
            },
            Step::Done(Err(e)) => {
                return Step::Done(Err(Error::DockerError(e)));
            },
            Step::Done(Ok(_)) => {},
        }
        let digest = item.hash();
        let record = String::from_str("mkdir -p ").concat(mirror(dir.as_str()).as_str()).concat(
            " && echo ",
        ).concat(encode(&digest).as_str()).concat(" > ").concat(
            mirror(destination.as_str()).as_str(),
        );
        match output(&self.dockercli, session, working.id.as_str(), record.as_str()) {
            Step::Ask(request) => Step::Ask(request),
            Step::Done(Err(e)) => Step::Done(Err(e)),
            Step::Done(Ok(_)) => Step::Done(Ok(AddResult::Succ)),
        }
    }
}

impl DB<Error> for ImageDrive {
    /// Lists the entries of the store. A store without entries gives an
    /// empty list.
    fn entries(&self, session: &mut Session) -> (step: Step<Result<Vec<String>, Error>>)
        ensures
            follows(
                step,
                final(session).unread(),
                entries_run(self.rule(), self.image(), old(session).unread()),
            ),
    {
        ls(&self.dockercli, session, self.image_name.as_str(), "/data")
    }

    /// Lists the items of `entry`, with the one listing of the entry's
    /// directory. An entry that the store does not hold is an error and
    /// never an empty list: what the listing says of it comes back as
    /// `ExecError`.
    fn items(&self, session: &mut Session, entry: &str) -> (step: Step<Result<Vec<String>, Error>>)
        ensures
            follows(
                step,
                final(session).unread(),
                items_run(self.rule(), self.image(), entry@, old(session).unread()),
            ),
    {
        ls(&self.dockercli, session, self.image_name.as_str(), entry_dir(entry).as_str())
    }

    /// Adds what lies at `itempath` on the host under `entry`, named
    /// `rename` or, without one, by the final name of the path. Content
    /// that an item of the entry already has is not stored again: the
    /// result is then `ExistedItem` with the name of that item.
    fn add(
        &self,
        session: &mut Session,
        entry: &str,
        itempath: &str,
        rename: Option<&str>,
    ) -> (step:
        Step<Result<AddResult, Error>>)
        ensures
            follows(
                step,
                final(session).unread(),
                add_run(
                    self.rule(),
                    self.image(),
                    entry@,
                    itempath@,
                    rename.deep_view(),
                    old(session).unread(),
                ),
            ),
    {
        let reply = match session.call(Request::ReadHost { path: String::from_str(itempath) }) {
            Step::Ask(request) => {
                return Step::Ask(request);
            },
            Step::Done(reply) => reply,
        };
        let found = match reply {
            Reply::Host(found) => found,
            Reply::Failed(reason) => {
                return Step::Done(
                    Err(Error::HostItemError(hostitem::Error::IOError(reason.clone()))),
                );
            },
            _ => {
                return Step::Done(Err(Error::DockerError(unexpected())));
            },
        };
        if let HostEntry::Missing = found {
            return Step::Done(Err(Error::NotExistItem(String::from_str(itempath))));
        }
        let mut item = match HostItem::new(itempath, rename, found) {
            Err(e) => {
                return Step::Done(Err(Error::HostItemError(e)));
            },
            Ok(item) => item,
        };
        self.place(session, entry, &mut item)
    }

    /// Deletes the item `item` of `entry`, or without one the whole
    /// entry, together with what mirrors it in the ledger.
    fn delete(&self, session: &mut Session, entry: &str, item: Option<&str>) -> (step: Step<
        Result<(), Error>,
    >)
        ensures
            follows(
                step,
                final(session).unread(),
                delete_run(
                    self.rule(),
                    self.image(),
                    entry@,
                    item.deep_view(),
                    old(session).unread(),
                ),
            ),
    {
        let working = match get_or_run(&self.dockercli, session, self.image_name.as_str()) {
            Step::Ask(request) => {
                return Step::Ask(request);
            },
            Step::Done(Err(e)) => {
                return Step::Done(Err(Error::DockerError(e)));
            },
            Step::Done(Ok(c)) => c,
        };
        let path = match item {
            None => entry_dir(entry),
            Some(id) => item_path(entry, id),
        };
        let command = String::from_str("rm -rf ").concat(path.as_str()).concat(" ").concat(
            mirror(path.as_str()).as_str(),
        );
        match output(&self.dockercli, session, working.id.as_str(), command.as_str()) {
            Step::Ask(request) => Step::Ask(request),
            Step::Done(Err(e)) => Step::Done(Err(e)),
            Step::Done(Ok(_)) => Step::Done(Ok(())),
        }
    }

    /// Copies all that lies under `entry` to the directory `dir` of the
    /// host.
    fn export_to_dir(&self, session: &mut Session, dir: &str, entry: &str) -> (step: Step<
        Result<(), Error>,
    >)
        ensures
            follows(
                step,
                final(session).unread(),
                export_run(self.rule(), self.image(), dir@, entry@, old(session).unread()),
            ),
    {
        let working = match get_or_run(&self.dockercli, session, self.image_name.as_str()) {
            Step::Ask(request) => {
                return Step::Ask(request);
            },
            Step::Done(Err(e)) => {
                return Step::Done(Err(Error::DockerError(e)));
            },
            Step::Done(Ok(c)) => c,
        };
        match self.dockercli.copy_out(
            session,
            working.id.as_str(),
            entry_dir(entry).as_str(),
            dir,
        ) {
            Step::Ask(request) => Step::Ask(request),
            Step::Done(Err(e)) => Step::Done(Err(Error::DockerError(e))),
            Step::Done(Ok(_)) => Step::Done(Ok(())),
        }
    }

    /// Publishes the working container: commits it as the image where it
    /// differs from the published image, and pushes the image in any case.
    fn sync(&self, session: &mut Session) -> (step: Step<Result<(), Error>>)
        ensures
            follows(
                step,
                final(session).unread(),
                sync_run(self.rule(), self.account(), self.image(), old(session).unread()),
            ),
    {
        let image = self.image_name.as_str();
        let working = match get_or_run(&self.dockercli, session, image) {
            Step::Ask(request) => {
                return Step::Ask(request);
            },
            Step::Done(Err(e)) => {
                return Step::Done(Err(Error::DockerError(e)));
            },
            Step::Done(Ok(c)) => c,
        };
        let changed = match self.diff_container_with_image(session) {
            Step::Ask(request) => {
                return Step::Ask(request);
            },
            Step::Done(Err(e)) => {
                return Step::Done(Err(e));
            },
            Step::Done(Ok(changed)) => changed,
        };
        if changed {
            match self.dockercli.commit(session, working.id.as_str(), "commit by sync", image) {
                Step::Ask(request) => {
                    return Step::Ask(request);
                },
                Step::Done(Err(e)) => {
                    return Step::Done(Err(Error::DockerError(e)));
                },
                Step::Done(Ok(_)) => {},
            }
        }
        match self.dockercli.push(session, image) {
            Step::Ask(request) => Step::Ask(request),
            Step::Done(Err(e)) => Step::Done(Err(Error::DockerError(e))),
            Step::Done(Ok(_)) => Step::Done(Ok(())),
        }
    }

    /// Overwrites the local image with the one in the registry. Nothing
    /// is merged: what the registry holds wins.
    fn sync_from_remote(&self, session: &mut Session) -> (step: Step<Result<(), Error>>)
        ensures
            follows(
                step,
                final(session).unread(),
                sync_from_remote_run(self.image(), old(session).unread()),
            ),
    {
        let image = self.image_name.as_str();
        match self.dockercli.remove_image(session, image) {
            Step::Ask(request) => {
                return Step::Ask(request);
            },
            Step::Done(_) => {},
        }
        match self.dockercli.pull(session, image) {
            Step::Ask(request) => Step::Ask(request),
            Step::Done(Err(e)) => Step::Done(Err(Error::DockerError(e))),
            Step::Done(Ok(_)) => Step::Done(Ok(())),
        }
    }
}


/// Whether a search finds the candidate's content depends on the digest
/// alone: a candidate of another name or path with the same digest is
/// found in the same item, after the same replies.
pub proof fn lemma_scan_goes_by_digest(
    rule: MatchRule,
    image: Seq<char>,
    working: Seq<char>,
    entry: Seq<char>,
    first: Candidate,
    second: Candidate,
    names: Seq<Seq<char>>,
    unread: Seq<ReplyView>,
)
    requires
        first.digest == second.digest,
        scan_run(rule, image, working, entry, first, names, unread) matches Run::Finished(
            Ok(AddResultView::ExistedItem(_)),
            _,
        ),
    ensures
        scan_run(rule, image, working, entry, second, names, unread) == scan_run(
            rule,
            image,
            working,
            entry,
            first,
            names,
            unread,
        ),
    decreases names.len(),
{
    if names.len() > 0 {
        match read_run(rule, data_path(entry, names[0]), image, unread) {
            Run::Finished(Ok(stored), rest) => {
                if stored.digest != first.digest {
                    lemma_scan_goes_by_digest(
                        rule,
                        image,
                        working,
                        entry,
                        first,
                        second,
                        names.drop_first(),
                        rest,
                    );
                }
            },
            _ => {},
        }
    }
}

/// An addition that finds its content already stored finds it under any
/// other name as well: with the same replies, the addition of the same
/// host path under another name ends with the same `ExistedItem`.
pub proof fn lemma_dedup_ignores_rename(
    rule: MatchRule,
    image: Seq<char>,
    entry: Seq<char>,
    itempath: Seq<char>,
    first: Option<Seq<char>>,
    second: Option<Seq<char>>,
    unread: Seq<ReplyView>,
)
    requires
        add_run(rule, image, entry, itempath, first, unread) matches Run::Finished(
            Ok(AddResultView::ExistedItem(_)),
            _,
        ),
    ensures
        add_run(rule, image, entry, itempath, second, unread) == add_run(
            rule,
            image,
            entry,
            itempath,
            first,
            unread,
        ),
{
    let reply = unread[0];
    let rest = unread.skip(1);
    let a = candidate_from(itempath, first, reply)->Ok_0;
    let b = candidate_from(itempath, second, reply)->Ok_0;
    assert(a.digest == b.digest);
    match get_or_run_run(rule, image, rest) {
        Run::Finished(Ok(working), r1) => {
            match output_run(working.id, ensure_and_list_command(data_dir(entry)), r1) {
                Run::Finished(Ok(listing), r2) => {
                    let names = words(listing);
                    lemma_scan_goes_by_digest(rule, image, working.id, entry, a, b, names, r2);
                },
                _ => {},
            }
        },
        _ => {},
    }
}

} // verus!

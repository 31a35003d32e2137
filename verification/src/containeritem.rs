//! Items that the store already holds.

use crate::digest::DIGEST_LEN;
use crate::dockerclient;
use crate::dockerclient::{exec_run, ContainerView, DockerClient, MatchRule};
use crate::hexcode::{decode, hex_bytes, is_hex_text};
use crate::layout::{mirror, read_ledger_command};
use crate::runtime::{attempt, follows, result_view, ReplyView, Run, Session, Step};
use crate::text::{file_name, final_name, trim, trimmed};
use crate::utils::{get_or_run, get_or_run_run};
use crate::Item;
use vstd::prelude::*;
use vstd::string::*;

verus! {

/// Why a stored item could not be read.
#[derive(Debug, Clone, PartialEq, Eq)]
pub enum Error {
    /// The path is not absolute or has no final name.
    BadPath(String),
    /// The runtime failed.
    DockerError(dockerclient::Error),
    /// Reading the ledger record printed diagnostics, which are the text.
    ExecError(String),
    /// The ledger record does not hold a digest; the text is what it holds.
    LedgerInconsistency(String),
}

/// An error of reading a stored item as a contract sees it.
pub enum ErrorView {
    BadPath(Seq<char>),
    DockerError(dockerclient::ErrorView),
    ExecError(Seq<char>),
    LedgerInconsistency(Seq<char>),
}

impl DeepView for Error {
    type V = ErrorView;

    open spec fn deep_view(&self) -> ErrorView {
        match *self {
            Error::BadPath(path) => ErrorView::BadPath(path@),
            Error::DockerError(e) => ErrorView::DockerError(e.deep_view()),
            Error::ExecError(text) => ErrorView::ExecError(text@),
            Error::LedgerInconsistency(text) => ErrorView::LedgerInconsistency(text@),
        }
    }
}

/// An item of the store: its path in the data tree, its name, the image
/// of the store, and the digest that its ledger record holds.
pub struct ContainerItem {
    path: String,
    id: String,
    image: String,
    digest: Vec<u8>,
}

/// A stored item as a contract sees it.
pub struct ContainerItemView {
    pub path: Seq<char>,
    pub id: Seq<char>,
    pub image: Seq<char>,
    pub digest: Seq<u8>,
}

impl DeepView for ContainerItem {
    type V = ContainerItemView;

    closed spec fn deep_view(&self) -> ContainerItemView {
        ContainerItemView {
            path: self.path@,
            id: self.id@,
            image: self.image@,
            digest: self.digest@,
        }
    }
}

/// The name of the item at `path`: the final name of an absolute path.
pub open spec fn stored_name(path: Seq<char>) -> Option<Seq<char>> {
    if path.len() > 0 && path[0] == '/' {
        final_name(path)
    } else {
        None
    }
}

/// The digest that a ledger record holds: its text, without the white
/// space around it, is the hexadecimal form of a digest of full length.
pub open spec fn recorded_digest(ledger: Seq<char>) -> Option<Seq<u8>> {
    if is_hex_text(trimmed(ledger)) && hex_bytes(trimmed(ledger)).len() == DIGEST_LEN {
        Some(hex_bytes(trimmed(ledger)))
    } else {
        None
    }
}

/// The stored item at `path`, given the text of its ledger record.
pub open spec fn materialized(path: Seq<char>, image: Seq<char>, ledger: Seq<char>) -> Result<
    ContainerItemView,
    ErrorView,
> {
    match stored_name(path) {
        None => Err(ErrorView::BadPath(path)),
        Some(name) => match recorded_digest(ledger) {
            None => Err(ErrorView::LedgerInconsistency(ledger)),
            Some(digest) => Ok(ContainerItemView { path, id: name, image, digest }),
        },
    }
}

/// Reading the stored item at `path`. A path without a name ends it before
/// anything is asked. Else the working container of `image` is found and
/// the ledger record is printed in it; diagnostics end it with
/// `ExecError`, and what was printed decides otherwise.
pub open spec fn read_run(
    rule: MatchRule,
    path: Seq<char>,
    image: Seq<char>,
    unread: Seq<ReplyView>,
) -> Run<Result<ContainerItemView, ErrorView>> {
    if stored_name(path) is None {
        Run::Finished(Err(ErrorView::BadPath(path)), unread)
    } else {
        attempt(
            get_or_run_run(rule, image, unread),
            |e: dockerclient::ErrorView| ErrorView::DockerError(e),
            |working: ContainerView, rest: Seq<ReplyView>|
                attempt(
                    exec_run(working.id, read_ledger_command(path), rest),
                    |e: dockerclient::ErrorView| ErrorView::DockerError(e),
                    |printed: (Seq<char>, Seq<char>), after: Seq<ReplyView>|
                        Run::Finished(
                            if printed.1.len() != 0 {
                                Err(ErrorView::ExecError(printed.1))
                            } else {
                                materialized(path, image, printed.0)
                            },
                            after,
                        ),
                ),
        )
    }
}

/// The name of the item at `path`, if the path can name one.
fn name_of(path: &str) -> (name: Option<String>)
    ensures
        match name {
            Some(n) => stored_name(path@) == Some(n@),
            None => stored_name(path@) is None,
        },
{
    if path.unicode_len() == 0 {
        return None;
    }
    if path.get_char(0) != '/' {
        return None;
    }
    file_name(path)
}

impl ContainerItem {
    #[verifier::type_invariant]
    spec fn full_digest(self) -> bool {
        self.digest@.len() == DIGEST_LEN
    }

    /// The stored item at `path`, given the text of its ledger record as
    /// it was read back from the container.
    pub fn new(path: &str, image: &str, ledger: &str) -> (r: Result<ContainerItem, Error>)
        ensures
            result_view(r) == materialized(path@, image@, ledger@),
    {
        let id = match name_of(path) {
            None => {
                return Err(Error::BadPath(String::from_str(path)));
            },
            Some(name) => name,
        };
        let text = trim(ledger);
        match decode(text.as_str()) {
            Some(digest) => {
                if digest.len() == DIGEST_LEN {
                    Ok(
                        ContainerItem {
                            path: String::from_str(path),
                            id,
                            image: String::from_str(image),
                            digest,
                        },
                    )
                } else {
                    Err(Error::LedgerInconsistency(String::from_str(ledger)))
                }
            },
            None => Err(Error::LedgerInconsistency(String::from_str(ledger))),
        }
    }

    /// Reads the stored item at `path` through the runtime.
    pub fn read(cli: &DockerClient, session: &mut Session, path: &str, image: &str) -> (step: Step<
        Result<ContainerItem, Error>,
    >)
        ensures
            follows(
                step,
                final(session).unread(),
                read_run(cli.rule(), path@, image@, old(session).unread()),
            ),
    {
        if name_of(path).is_none() {
            return Step::Done(Err(Error::BadPath(String::from_str(path))));
        }
        let working = match get_or_run(cli, session, image) {
            Step::Ask(request) => {
                return Step::Ask(request);
            },
            Step::Done(Err(e)) => {
                return Step::Done(Err(Error::DockerError(e)));
            },
            Step::Done(Ok(c)) => c,
        };
        let command = String::from_str("cat ").concat(mirror(path).as_str());
        let printed = match cli.exec(session, working.id.as_str(), command.as_str()) {
            Step::Ask(request) => {
                return Step::Ask(request);
            },
            Step::Done(Err(e)) => {
                return Step::Done(Err(Error::DockerError(e)));
            },
            Step::Done(Ok(printed)) => printed,
        };
        if !printed.1.as_str().is_empty() {
            return Step::Done(Err(Error::ExecError(printed.1)));
        }
        Step::Done(ContainerItem::new(path, image, printed.0.as_str()))
    }

    /// The image of the store that holds the item.
    pub fn image(&self) -> (image: &str)
        ensures
            image@ == self.deep_view().image,
    {
        self.image.as_str()
    }
}

impl Item for ContainerItem {
    open spec fn digest(&self) -> Seq<u8> {
        self.deep_view().digest
    }

    open spec fn name(&self) -> Seq<char> {
        self.deep_view().id
    }

    open spec fn source(&self) -> Seq<char> {
        self.deep_view().path
    }

    /// The digest that the item's ledger record holds, which has 32
    /// bytes.
    fn hash(&mut self) -> (digest: Vec<u8>)
        ensures
            final(self).deep_view() == old(self).deep_view(),
    {
        proof {
            use_type_invariant(&*self);
        }
        let digest = self.digest.clone();
        assert(digest@ =~= self.digest@);
        digest
    }

    fn id(&self) -> (id: &str) {
        self.id.as_str()
    }

    fn srcpath(&self) -> (path: &str) {
        self.path.as_str()
    }
}

} // verus!

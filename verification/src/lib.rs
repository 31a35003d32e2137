//! A content-addressed, deduplicating store for files and directories whose
//! backing storage is a container runtime.
//!
//! Data lives inside a running container, the working container, and is
//! published as an image. Items are kept in named entries. Every stored
//! item is mirrored by a ledger record that holds the digest of its
//! content, and items are told apart by that digest alone, never by name
//! or time: content that an entry already holds is not stored again.
//!
//! # Driving the store
//!
//! The store does no input or output of its own. Each operation is a
//! procedure over the replies that a driver has collected so far; it stops
//! at the first request that none of them answers and hands that request
//! back. The driver performs it, adds the reply, and starts the procedure
//! again (see [`runtime`]). What an operation asks, and what it returns,
//! is a function of its arguments and of those replies, and the contract of
//! every operation states that function.
//!
//! # Layout
//!
//! - [`docker`]: the store itself, [`docker::ImageDrive`].
//! - [`hostitem`], [`containeritem`]: what can be compared by content, items
//!   staged from the host and items that the store holds.
//! - [`dockerclient`], [`utils`]: containers, images and the command lines of
//!   the runtime; finding or making the working container.
//! - [`layout`]: where data and ledger lie inside a container.
//! - [`digest`], [`hexcode`]: SHA-256 and the text form of digests.
//! - [`text`], [`order`], [`search`]: splitting and trimming text, the
//!   order in which the files of a directory are hashed, first matches.
//! - [`talk`], [`model`]: what passes between an operation and its driver,
//!   and what the operations come to against a runtime that keeps faith.
//!
//! # What is taken on trust
//!
//! Two crates do work that nothing here proves. `sha2` computes digests:
//! [`digest`] gives its hasher a contract over the bytes it has taken in
//! and names the digest of a message without saying what it is. `hex`
//! writes and reads the text of digests: [`hexcode`] states in full what
//! text it writes and which texts it reads. Everything else is proved from
//! those contracts. That a runtime answers as [`model`] supposes is not a
//! matter of proof at all; the lemmas there say what follows if it does.

pub mod config;
pub mod containeritem;
pub mod digest;
pub mod docker;
pub mod dockerclient;
pub mod hexcode;
pub mod hostitem;
pub mod layout;
pub mod model;
pub mod order;
pub mod runtime;
pub mod search;
pub mod talk;
pub mod text;
pub mod utils;

use crate::digest::DIGEST_LEN;
use crate::runtime::{Session, Step};
use vstd::prelude::*;

verus! {

/// How an addition ended.
#[derive(Debug, Clone, PartialEq, Eq)]
pub enum AddResult {
    /// The entry already holds the content, under the name given here;
    /// nothing was stored.
    ExistedItem(String),
    /// The item was stored.
    Succ,
}

/// The end of an addition as a contract sees it.
pub enum AddResultView {
    ExistedItem(Seq<char>),
    Succ,
}

impl DeepView for AddResult {
    type V = AddResultView;

    open spec fn deep_view(&self) -> AddResultView {
        match *self {
            AddResult::ExistedItem(id) => AddResultView::ExistedItem(id@),
            AddResult::Succ => AddResultView::Succ,
        }
    }
}

/// A store of entries and their items. Every operation reads the replies
/// of `session` and stops with a request where one is missing.
pub trait DB<E> {
    /// Lists the entries.
    fn entries(&self, session: &mut Session) -> Step<Result<Vec<String>, E>>;

    /// Lists the items of `entry`.
    fn items(&self, session: &mut Session, entry: &str) -> Step<Result<Vec<String>, E>>;

    /// Adds what lies at `itempath` on the host under `entry`.
    fn add(&self, session: &mut Session, entry: &str, itempath: &str, rename: Option<&str>) -> Step<
        Result<AddResult, E>,
    >;

    /// Deletes an item of `entry`, or the whole entry.
    fn delete(&self, session: &mut Session, entry: &str, item: Option<&str>) -> Step<Result<(), E>>;

    /// Copies `entry` to the directory `dir` of the host.
    fn export_to_dir(&self, session: &mut Session, dir: &str, entry: &str) -> Step<Result<(), E>>;

    /// Publishes the local state to the registry.
    fn sync(&self, session: &mut Session) -> Step<Result<(), E>>;

    /// Overwrites the local state with the registry's.
    fn sync_from_remote(&self, session: &mut Session) -> Step<Result<(), E>>;
}

/// What the store can hold: something with a content digest, a name, and a
/// path that it comes from.
pub trait Item {
    /// The digest of the item's content.
    spec fn digest(&self) -> Seq<u8>;

    /// The name that the item is stored under.
    spec fn name(&self) -> Seq<char>;

    /// The path that the item comes from.
    spec fn source(&self) -> Seq<char>;

    /// Computes the digest of the item's content, which has 32 bytes.
    fn hash(&mut self) -> (digest: Vec<u8>)
        ensures
            digest@ == old(self).digest(),
            digest@.len() == DIGEST_LEN,
            final(self).digest() == old(self).digest(),
            final(self).name() == old(self).name(),
            final(self).source() == old(self).source(),
    ;

    /// The name that the item is stored under, unique within its entry.
    fn id(&self) -> (id: &str)
        ensures
            id@ == self.name(),
    ;

    /// The path that the item comes from.
    fn srcpath(&self) -> (path: &str)
        ensures
            path@ == self.source(),
    ;
}

/// Tells whether two items have the same content, that is, the same
/// digest. Names and paths play no part.
pub fn compare_items<T1: Item, T2: Item + ?Sized>(i1: &mut T1, i2: &mut T2) -> (same: bool)
    ensures
        same == (old(i1).digest() == old(i2).digest()),
        final(i1).digest() == old(i1).digest(),
        final(i1).name() == old(i1).name(),
        final(i1).source() == old(i1).source(),
        final(i2).digest() == old(i2).digest(),
        final(i2).name() == old(i2).name(),
        final(i2).source() == old(i2).source(),
{
    let first = i1.hash();
    let second = i2.hash();
    same_bytes(&first, &second)
}

/// Tells whether two byte vectors hold the same bytes.
pub fn same_bytes(a: &Vec<u8>, b: &Vec<u8>) -> (same: bool)
    ensures
        same == (a@ == b@),
{
    if a.len() != b.len() {
        return false;
    }
    let mut i: usize = 0;
    while i < a.len()
        invariant
            i <= a.len(),
            a.len() == b.len(),
            a@.take(i as int) == b@.take(i as int),
        decreases a.len() - i,
    {
        if a[i] != b[i] {
            return false;
        }
        assert(a@.take(i + 1) =~= a@.take(i as int).push(a@[i as int]));
        assert(b@.take(i + 1) =~= b@.take(i as int).push(b@[i as int]));
        i += 1;
    }
    assert(a@ =~= a@.take(i as int) && b@ =~= b@.take(i as int));
    true
}

} // verus!

//! Items staged from the host's filesystem.

use crate::digest::{
    absorbed, hasher_input, hasher_new, hasher_result, lemma_flatten_take_len,
    lemma_flatten_take_next, sha256, DIGEST_LEN, MESSAGE_LIMIT,
};
use crate::order::{
    byte_order, bytes_lt, lemma_lex_connected, lemma_lex_irreflexive, lemma_lex_transitive,
    lemma_orders_strict_total, path_lt, rank_bytes, rank_paths, Rank,
};
use crate::runtime::result_view;
use crate::text::{file_name, final_name};
use crate::Item;
use vstd::prelude::*;
use vstd::relations::{sorted_by, total_ordering};
use vstd::seq_lib::{lemma_sorted_unique, to_multiset_build, to_multiset_insert};
use vstd::string::*;

verus! {

/// A regular file found below a directory: the names that lead to it from
/// that directory, each as the bytes of a file name, and its content.
#[derive(Debug, Clone, PartialEq, Eq)]
pub struct HostFile {
    pub path: Vec<Vec<u8>>,
    pub content: Vec<u8>,
}

/// A file below a directory as a contract sees it.
pub struct HostFileView {
    pub path: Seq<Seq<u8>>,
    pub content: Seq<u8>,
}

impl DeepView for HostFile {
    type V = HostFileView;

    open spec fn deep_view(&self) -> HostFileView {
        HostFileView { path: self.path.deep_view(), content: self.content@ }
    }
}

/// What the host holds at a path.
#[derive(Debug, Clone, PartialEq, Eq)]
pub enum HostEntry {
    /// Nothing.
    Missing,
    /// A regular file, with its content.
    File(Vec<u8>),
    /// A directory, with the regular files below it at any depth, links
    /// followed, in whatever order the filesystem gave them.
    Directory(Vec<HostFile>),
    /// Something that is neither a regular file nor a directory.
    Other,
    /// A file that could not be opened or read; the text says why.
    Unreadable(String),
    /// A directory that could not be walked; the text says why.
    Unwalkable(String),
}

/// What the host holds at a path as a contract sees it.
pub enum HostEntryView {
    Missing,
    File(Seq<u8>),
    Directory(Seq<HostFileView>),
    Other,
    Unreadable(Seq<char>),
    Unwalkable(Seq<char>),
}

impl DeepView for HostEntry {
    type V = HostEntryView;

    open spec fn deep_view(&self) -> HostEntryView {
        match *self {
            HostEntry::Missing => HostEntryView::Missing,
            HostEntry::File(content) => HostEntryView::File(content@),
            HostEntry::Directory(files) => HostEntryView::Directory(files.deep_view()),
            HostEntry::Other => HostEntryView::Other,
            HostEntry::Unreadable(reason) => HostEntryView::Unreadable(reason@),
            HostEntry::Unwalkable(reason) => HostEntryView::Unwalkable(reason@),
        }
    }
}


/// Why a path of the host could not be staged.
#[derive(Debug, Clone, PartialEq, Eq)]
pub enum Error {
    /// The path has no final name, or there is neither a regular file nor
    /// a directory at it.
    BadPath(String),
    /// A file could not be opened or read.
    IOError(String),
    /// A directory could not be walked, or the content is too long to hash.
    DefaultError(String),
}

/// An error of staging as a contract sees it.
pub enum ErrorView {
    BadPath(Seq<char>),
    IOError(Seq<char>),
    DefaultError(Seq<char>),
}

impl DeepView for Error {
    type V = ErrorView;

    open spec fn deep_view(&self) -> ErrorView {
        match *self {
            Error::BadPath(path) => ErrorView::BadPath(path@),
            Error::IOError(reason) => ErrorView::IOError(reason@),
            Error::DefaultError(reason) => ErrorView::DefaultError(reason@),
        }
    }
}

/// Whether the file `a` is hashed no later than `b`. Files go by their
/// paths. Two files of one path, which no directory holds, go by content,
/// so that the order never depends on how the files were listed.
pub open spec fn file_leq(a: HostFileView, b: HostFileView) -> bool {
    ||| path_lt(a.path, b.path)
    ||| (a.path == b.path && (bytes_lt(a.content, b.content) || a.content == b.content))
}

/// The order in which files are hashed.
pub open spec fn file_order() -> spec_fn(HostFileView, HostFileView) -> bool {
    |a: HostFileView, b: HostFileView| file_leq(a, b)
}

/// The order of hashing is a total order.
pub proof fn lemma_file_order_total()
    ensures
        total_ordering(file_order()),
{
    lemma_orders_strict_total();
    let paths = |a: Seq<Seq<u8>>, b: Seq<Seq<u8>>| path_lt(a, b);
    let r = file_order();
    assert forall|x: HostFileView, y: HostFileView| #[trigger]
        r(x, y) && #[trigger] r(y, x) implies x == y by {
        if path_lt(x.path, y.path) && path_lt(y.path, x.path) {
            assert(paths(x.path, y.path) && paths(y.path, x.path));
            assert(paths(x.path, x.path));
        }
        if x.path == y.path {
            assert(!paths(x.path, x.path));
            if bytes_lt(x.content, y.content) && bytes_lt(y.content, x.content) {
                lemma_lex_transitive(x.content, y.content, x.content, byte_order());
                lemma_lex_irreflexive(x.content, byte_order());
            }
        }
    }
    assert forall|x: HostFileView, y: HostFileView, z: HostFileView| #[trigger]
        r(x, y) && #[trigger] r(y, z) implies r(x, z) by {
        assert(!paths(x.path, x.path));
        if path_lt(x.path, y.path) && path_lt(y.path, z.path) {
            assert(paths(x.path, y.path) && paths(y.path, z.path));
            assert(paths(x.path, z.path));
        }
        if x.path == y.path && y.path == z.path {
            if bytes_lt(x.content, y.content) && bytes_lt(y.content, z.content) {
                lemma_lex_transitive(x.content, y.content, z.content, byte_order());
            }
        }
    }
    assert forall|x: HostFileView, y: HostFileView| #[trigger] r(x, y) || #[trigger] r(y, x) by {
        if x.path != y.path {
            assert(paths(x.path, y.path) || paths(y.path, x.path));
        } else if x.content != y.content {
            lemma_lex_connected(x.content, y.content, byte_order());
        }
    }
    assert forall|x: HostFileView| #[trigger] r(x, x) by {}
}

/// The contents that make up an item, in the order in which they are
/// hashed: the one content of a file, or the contents of the files below
/// a directory by `file_order`.
///
/// Ordering the files by their paths, name by name, is the order in which
/// a walk meets them that visits the names of every directory in order.
pub open spec fn staged_chunks(found: HostEntryView) -> Seq<Seq<u8>> {
    match found {
        HostEntryView::File(content) => seq![content],
        HostEntryView::Directory(files) => files.sort_by(file_order()).map_values(
            |f: HostFileView| f.content,
        ),
        _ => Seq::empty(),
    }
}

/// The message of the error for content that is too long to hash.
pub open spec fn too_long() -> Seq<char> {
    "content too long to hash"@
}

/// A staged item as a contract sees it.
pub struct HostItemView {
    pub path: Seq<char>,
    pub id: Seq<char>,
    pub chunks: Seq<Seq<u8>>,
}

/// What staging the path `path` comes to, given what the host holds there.
/// The item is named by `rename`, or by the final name of the path.
pub open spec fn staged(path: Seq<char>, rename: Option<Seq<char>>, found: HostEntryView) -> Result<
    HostItemView,
    ErrorView,
> {
    match final_name(path) {
        None => Err(ErrorView::BadPath(path)),
        Some(name) => match found {
            HostEntryView::Missing => Err(ErrorView::BadPath(path)),
            HostEntryView::Other => Err(ErrorView::BadPath(path)),
            HostEntryView::Unreadable(reason) => Err(ErrorView::IOError(reason)),
            HostEntryView::Unwalkable(reason) => Err(ErrorView::DefaultError(reason)),
            _ => if staged_chunks(found).flatten().len() < MESSAGE_LIMIT {
                Ok(
                    HostItemView {
                        path,
                        id: match rename {
                            Some(given) => given,
                            None => name,
                        },
                        chunks: staged_chunks(found),
                    },
                )
            } else {
                Err(ErrorView::DefaultError(too_long()))
            },
        },
    }
}

/// Tells whether `a` is hashed no later than `b`.
fn no_later(a: &HostFile, b: &HostFile) -> (r: bool)
    ensures
        r == file_leq(a.deep_view(), b.deep_view()),
{
    proof {
        lemma_orders_strict_total();
        let paths = |a: Seq<Seq<u8>>, b: Seq<Seq<u8>>| path_lt(a, b);
        let pa = a.deep_view().path;
        let pb = b.deep_view().path;
        assert(!paths(pa, pa));
        if path_lt(pa, pb) && path_lt(pb, pa) {
            assert(paths(pa, pb) && paths(pb, pa));
        }
        lemma_lex_irreflexive(a.content@, byte_order());
        if bytes_lt(a.content@, b.content@) && bytes_lt(b.content@, a.content@) {
            lemma_lex_transitive(a.content@, b.content@, a.content@, byte_order());
        }
    }
    match rank_paths(&a.path, &b.path) {
        Rank::Before => true,
        Rank::After => false,
        Rank::Same => match rank_bytes(&a.content, &b.content) {
            Rank::After => false,
            _ => true,
        },
    }
}

/// The files in the order in which they are hashed.
fn in_order<'a>(files: &'a Vec<HostFile>) -> (out: Vec<&'a HostFile>)
    ensures
        out.deep_view() == files.deep_view().sort_by(file_order()),
{
    let ghost all = files.deep_view();
    let mut out: Vec<&'a HostFile> = Vec::new();
    let mut i: usize = 0;
    proof {
        lemma_file_order_total();
        assert(out.deep_view() =~= Seq::<HostFileView>::empty());
        assert(all.take(0) =~= Seq::<HostFileView>::empty());
    }
    while i < files.len()
        invariant
            i <= files.len(),
            all == files.deep_view(),
            total_ordering(file_order()),
            sorted_by(out.deep_view(), file_order()),
            out.deep_view().to_multiset() == all.take(i as int).to_multiset(),
        decreases files.len() - i,
    {
        let file = &files[i];
        let mut j: usize = 0;
        while j < out.len() && no_later(out[j], file)
            invariant
                j <= out.len(),
                forall|k: int|
                    0 <= k < j ==> file_leq(#[trigger] out.deep_view()[k], file.deep_view()),
            decreases out.len() - j,
        {
            j += 1;
        }
        let ghost before = out.deep_view();
        out.insert(j, file);
        proof {
            let after = out.deep_view();
            let x = file.deep_view();
            let r = file_order();
            assert(after =~= before.insert(j as int, x));
            assert(x == all[i as int]);
            to_multiset_insert(before, j as int, x);
            assert(all.take(i + 1) =~= all.take(i as int).push(x));
            to_multiset_build(all.take(i as int), x);
            assert forall|a: int, b: int| 0 <= a < b < after.len() implies #[trigger] r(
                after[a],
                after[b],
            ) by {
                if b < j {
                    assert(r(before[a], before[b]));
                } else if b == j {
                    assert(file_leq(before[a], x));
                } else if a == j {
                    assert(!file_leq(before[j as int], x));
                    assert(r(x, before[j as int]) || r(before[j as int], x));
                    if b - 1 > j {
                        assert(r(before[j as int], before[b - 1]));
                    }
                    assert(r(x, before[b - 1]));
                } else if a < j {
                    assert(r(before[a], before[b - 1]));
                } else {
                    assert(r(before[a - 1], before[b - 1]));
                }
            }
        }
        i += 1;
    }
    proof {
        assert(all.take(i as int) =~= all);
        all.lemma_sort_by_ensures(file_order());
        lemma_sorted_unique(out.deep_view(), all.sort_by(file_order()), file_order());
    }
    out
}

/// A vector of bytes is seen as the bytes it holds.
proof fn lemma_bytes_view(v: &Vec<u8>)
    ensures
        v.deep_view() == v@,
{
    assert(v.deep_view() =~= v@);
}

/// The contents of the files in the order in which they are hashed.
fn contents_in_order<'a>(files: &'a Vec<HostFile>) -> (out: Vec<&'a Vec<u8>>)
    ensures
        out.deep_view() == staged_chunks(HostEntryView::Directory(files.deep_view())),
{
    let ordered = in_order(files);
    let mut out: Vec<&'a Vec<u8>> = Vec::new();
    let mut i: usize = 0;
    while i < ordered.len()
        invariant
            i <= ordered.len(),
            out.len() == i,
            forall|k: int|
                0 <= k < i ==> out.deep_view()[k] == (#[trigger] ordered.deep_view()[k]).content,
        decreases ordered.len() - i,
    {
        let file: &'a HostFile = ordered[i];
        let ghost before = out.deep_view();
        assert(ordered.deep_view()[i as int] == file.deep_view());
        out.push(&file.content);
        proof {
            lemma_bytes_view(&file.content);
            assert(out.deep_view() =~= before.push(file.content@));
        }
        i += 1;
    }
    assert(out.deep_view() =~= ordered.deep_view().map_values(|f: HostFileView| f.content));
    out
}

/// Tells whether the chunks together are short enough to hash.
fn fits(chunks: &Vec<&Vec<u8>>) -> (ok: bool)
    ensures
        ok == (chunks.deep_view().flatten().len() < MESSAGE_LIMIT),
{
    let ghost views = chunks.deep_view();
    let mut total: u64 = 0;
    let mut i: usize = 0;
    assert(views.take(0) =~= Seq::<Seq<u8>>::empty());
    while i < chunks.len()
        invariant
            i <= chunks.len(),
            views == chunks.deep_view(),
            total == views.take(i as int).flatten().len(),
            total < MESSAGE_LIMIT,
        decreases chunks.len() - i,
    {
        let n = chunks[i].len() as u64;
        proof {
            lemma_bytes_view(chunks[i as int]);
            lemma_flatten_take_next(views, i as int);
            lemma_flatten_take_len(views, i + 1);
        }
        if n >= MESSAGE_LIMIT - total {
            return false;
        }
        total = total + n;
        i += 1;
    }
    assert(views.take(i as int) =~= views);
    true
}

/// The SHA-256 digest of the chunks laid end to end.
fn digest_of(chunks: &Vec<&Vec<u8>>) -> (digest: Vec<u8>)
    requires
        chunks.deep_view().flatten().len() < MESSAGE_LIMIT,
    ensures
        digest@ == sha256(chunks.deep_view().flatten()),
        digest@.len() == DIGEST_LEN,
{
    let ghost views = chunks.deep_view();
    let mut hasher = hasher_new();
    let mut i: usize = 0;
    assert(views.take(0) =~= Seq::<Seq<u8>>::empty());
    while i < chunks.len()
        invariant
            i <= chunks.len(),
            views == chunks.deep_view(),
            views.flatten().len() < MESSAGE_LIMIT,
            absorbed(hasher) == views.take(i as int).flatten(),
        decreases chunks.len() - i,
    {
        proof {
            lemma_bytes_view(chunks[i as int]);
            lemma_flatten_take_next(views, i as int);
            lemma_flatten_take_len(views, i + 1);
        }
        hasher_input(&mut hasher, chunks[i]);
        i += 1;
    }
    assert(views.take(i as int) =~= views);
    hasher_result(hasher)
}

/// A file or directory of the host, staged for the store: where it lies,
/// the name it is to be stored under, and its content. The digest is
/// kept once it has been computed.
pub struct HostItem<'a> {
    path: String,
    id: String,
    chunks: Vec<&'a Vec<u8>>,
    known: Option<Vec<u8>>,
}

impl<'a> DeepView for HostItem<'a> {
    type V = HostItemView;

    closed spec fn deep_view(&self) -> HostItemView {
        HostItemView { path: self.path@, id: self.id@, chunks: self.chunks.deep_view() }
    }
}

impl<'a> HostItem<'a> {
    #[verifier::type_invariant]
    spec fn sound(self) -> bool {
        &&& self.chunks.deep_view().flatten().len() < MESSAGE_LIMIT
        &&& self.known matches Some(digest) ==> digest@ == sha256(
            self.chunks.deep_view().flatten(),
        ) && digest@.len() == DIGEST_LEN
    }

    /// Stages what the host holds at `path`, under the name `rename` or,
    /// without one, under the final name of the path.
    pub fn new(path: &str, rename: Option<&str>, found: &'a HostEntry) -> (r: Result<
        HostItem<'a>,
        Error,
    >)
        ensures
            result_view(r) == staged(path@, rename.deep_view(), found.deep_view()),
    {
        let name = match file_name(path) {
            None => {
                return Err(Error::BadPath(String::from_str(path)));
            },
            Some(name) => name,
        };
        let id = match rename {
            Some(given) => String::from_str(given),
            None => name,
        };
        let chunks: Vec<&'a Vec<u8>> = match found {
            HostEntry::File(content) => {
                let mut one: Vec<&'a Vec<u8>> = Vec::new();
                one.push(content);
                proof {
                    lemma_bytes_view(content);
                    assert(one.deep_view() =~= seq![content@]);
                }
                one
            },
            HostEntry::Directory(files) => contents_in_order(files),
            HostEntry::Missing => {
                return Err(Error::BadPath(String::from_str(path)));
            },
            HostEntry::Other => {
                return Err(Error::BadPath(String::from_str(path)));
            },
            HostEntry::Unreadable(reason) => {
                return Err(Error::IOError(reason.clone()));
            },
            HostEntry::Unwalkable(reason) => {
                return Err(Error::DefaultError(reason.clone()));
            },
        };
        if !fits(&chunks) {
            return Err(Error::DefaultError(String::from_str("content too long to hash")));
        }
        Ok(HostItem { path: String::from_str(path), id, chunks, known: None })
    }
}

impl<'a> Item for HostItem<'a> {
    open spec fn digest(&self) -> Seq<u8> {
        sha256(self.deep_view().chunks.flatten())
    }

    open spec fn name(&self) -> Seq<char> {
        self.deep_view().id
    }

    open spec fn source(&self) -> Seq<char> {
        self.deep_view().path
    }

    /// The SHA-256 digest of the item's contents laid end to end, which
    /// has 32 bytes. It is computed when it is first asked for.
    fn hash(&mut self) -> (digest: Vec<u8>)
        ensures
            digest@.len() == DIGEST_LEN,
            final(self).deep_view() == old(self).deep_view(),
    {
        proof {
            use_type_invariant(&*self);
        }
        if let Some(digest) = &self.known {
            let copy = digest.clone();
            assert(copy@ =~= digest@);
            return copy;
        }
        let digest = digest_of(&self.chunks);
        let copy = digest.clone();
        assert(copy@ =~= digest@);
        self.known = Some(copy);
        digest
    }

    fn id(&self) -> (id: &str) {
        self.id.as_str()
    }

    fn srcpath(&self) -> (path: &str) {
        self.path.as_str()
    }
}


/// However the filesystem lists the files below a directory, the item
/// staged from them is the same, and with it the digest: two listings
/// that hold the same files stage alike.
pub proof fn lemma_listing_order_is_immaterial(
    path: Seq<char>,
    rename: Option<Seq<char>>,
    a: Seq<HostFileView>,
    b: Seq<HostFileView>,
)
    requires
        a.to_multiset() == b.to_multiset(),
    ensures
        staged_chunks(HostEntryView::Directory(a)) == staged_chunks(HostEntryView::Directory(b)),
        staged(path, rename, HostEntryView::Directory(a)) == staged(
            path,
            rename,
            HostEntryView::Directory(b),
        ),
{
    lemma_file_order_total();
    a.lemma_sort_by_ensures(file_order());
    b.lemma_sort_by_ensures(file_order());
    lemma_sorted_unique(a.sort_by(file_order()), b.sort_by(file_order()), file_order());
}

/// A rename changes the name of a staged item and nothing else. Whether
/// staging succeeds does not depend on it, nor does the error; and where
/// staging succeeds the path and the contents, and so the digest, are
/// those of the item staged without a rename.
pub proof fn lemma_rename_changes_only_the_name(
    path: Seq<char>,
    rename: Seq<char>,
    found: HostEntryView,
)
    ensures
        match (staged(path, None, found), staged(path, Some(rename), found)) {
            (Ok(plain), Ok(renamed)) => {
                &&& renamed.id == rename
                &&& Some(plain.id) == final_name(path)
                &&& renamed.path == plain.path
                &&& renamed.chunks == plain.chunks
                &&& sha256(renamed.chunks.flatten()) == sha256(plain.chunks.flatten())
            },
            (Err(plain), Err(renamed)) => plain == renamed,
            _ => false,
        },
{
}

} // verus!

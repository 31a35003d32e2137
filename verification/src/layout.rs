//! Where things lie inside a container, and the commands that read and
//! write them.
//!
//! Data lies under `/data/<entry>/<item>`. The ledger mirrors that tree
//! under `/checksum`: the record of an item lies at `/checksum` followed by
//! the item's own path, and holds the item's digest as text.

use vstd::prelude::*;
use vstd::string::*;

verus! {

/// The root of the data tree.
pub open spec fn data_root() -> Seq<char> {
    "/data"@
}

/// The directory of an entry.
pub open spec fn data_dir(entry: Seq<char>) -> Seq<char> {
    "/data/"@ + entry
}

/// The path of an item.
pub open spec fn data_path(entry: Seq<char>, id: Seq<char>) -> Seq<char> {
    "/data/"@ + entry + "/"@ + id
}

/// The path in the ledger that mirrors a path in the data tree.
pub open spec fn ledger_path(path: Seq<char>) -> Seq<char> {
    "/checksum"@ + path
}

/// The command that lists a directory.
pub open spec fn list_command(dir: Seq<char>) -> Seq<char> {
    "ls "@ + dir
}

/// The command that makes sure a directory is there and lists it.
pub open spec fn ensure_and_list_command(dir: Seq<char>) -> Seq<char> {
    "mkdir -p "@ + dir + " && ls "@ + dir
}

/// The command that prints the ledger record of an item.
pub open spec fn read_ledger_command(path: Seq<char>) -> Seq<char> {
    "cat "@ + ledger_path(path)
}

/// The command that writes the ledger record of an item: it makes sure
/// that the entry's directory in the ledger is there, and writes the text.
pub open spec fn write_ledger_command(
    entry: Seq<char>,
    id: Seq<char>,
    text: Seq<char>,
) -> Seq<char> {
    "mkdir -p "@ + ledger_path(data_dir(entry)) + " && echo "@ + text + " > "@ + ledger_path(
        data_path(entry, id),
    )
}

/// The command that removes a path of the data tree together with its
/// mirror in the ledger.
pub open spec fn remove_command(path: Seq<char>) -> Seq<char> {
    "rm -rf "@ + path + " "@ + ledger_path(path)
}

/// The command that prints every ledger record, sorted.
pub open spec fn signature_command() -> Seq<char> {
    "cat /checksum/data/*/* | sort"@
}

/// Builds the directory of an entry.
pub fn entry_dir(entry: &str) -> (dir: String)
    ensures
        dir@ == data_dir(entry@),
{
    String::from_str("/data/").concat(entry)
}

/// Builds the path of an item.
pub fn item_path(entry: &str, id: &str) -> (path: String)
    ensures
        path@ == data_path(entry@, id@),
{
    String::from_str("/data/").concat(entry).concat("/").concat(id)
}

/// Builds the ledger's mirror of a path.
pub fn mirror(path: &str) -> (mirrored: String)
    ensures
        mirrored@ == ledger_path(path@),
{
    String::from_str("/checksum").concat(path)
}

} // verus!

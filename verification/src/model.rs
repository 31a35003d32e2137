//! A store as a faithful runtime keeps it, and what the operations come
//! to when they are driven against such a runtime.
//!
//! Nothing here is executed. The talks below say what a runtime answers
//! that lists the working container, runs every command without
//! diagnostics, and keeps under each entry the items that were added to
//! it, each with a ledger record of its digest.

use crate::containeritem;
use crate::containeritem::{
    materialized, read_run, recorded_digest, stored_name, ContainerItemView,
};
use crate::digest::DIGEST_LEN;
use crate::docker::{
    add_run, candidate_from, candidate_of, checksum_run, commit_message, delete_run, diff_run,
    diverged, entries_run, items_run, ls_run, output_run, place_run, publish_run,
    runtime_failure, scan_run, store_run, sync_run, target, Candidate, ErrorView,
};
use crate::dockerclient;
use crate::dockerclient::{
    commit_command, commit_run, copy_command, copy_run, create_run, created_among, exec_command,
    exec_run, ps_run, push_command, start_run, Account, ContainerView, MatchRule,
};
use crate::hexcode::{hex_text, lemma_decode_encode, lower_hex_digit};
use crate::hostitem::{staged, HostEntryView};
use crate::layout::{
    data_dir, data_path, data_root, ensure_and_list_command, ledger_path, list_command,
    read_ledger_command, remove_command, signature_command, write_ledger_command,
};
use crate::runtime::{attempt, exchange, ReplyView, RequestView, Run};
use crate::search::{first_index, lemma_first_index};
use crate::talk::{
    lemma_performs_chain, lemma_performs_end, lemma_performs_same, lemma_performs_turn, performs,
    Turn,
};
use crate::text::{
    lemma_final_name_of_child, lemma_trimmed_line, lemma_words_of_listing, listing_text,
    plain_name, trimmed, words,
};
use crate::utils::{first_working, get_or_run_run, run_run};
use crate::AddResultView;
use vstd::prelude::*;

verus! {

/// Whether `working` is the working container of `image` among the
/// running containers.
pub open spec fn serves(
    rule: MatchRule,
    running: Seq<ContainerView>,
    image: Seq<char>,
    working: ContainerView,
) -> bool {
    match first_working(rule, running, image) {
        Some(i) => running[i] == working,
        None => false,
    }
}

/// The turn in which the running containers are listed.
pub open spec fn find_talk(running: Seq<ContainerView>) -> Seq<Turn> {
    seq![
        Turn {
            request: RequestView::ListContainers { all: false },
            reply: ReplyView::Containers(running),
        },
    ]
}

/// Where the working container runs, finding it takes one listing.
pub proof fn lemma_find_performs(
    rule: MatchRule,
    image: Seq<char>,
    running: Seq<ContainerView>,
    working: ContainerView,
)
    requires
        serves(rule, running, image, working),
    ensures
        performs(
            |unread: Seq<ReplyView>| get_or_run_run(rule, image, unread),
            find_talk(running),
            Ok::<ContainerView, dockerclient::ErrorView>(working),
        ),
{
    lemma_performs_turn(
        |unread: Seq<ReplyView>| get_or_run_run(rule, image, unread),
        RequestView::ListContainers { all: false },
        ReplyView::Containers(running),
        Ok::<ContainerView, dockerclient::ErrorView>(working),
    );
}

/// The turn in which a command runs in a container, prints `output` and
/// no diagnostics.
pub open spec fn command_turn(container: Seq<char>, cmd: Seq<char>, output: Seq<char>) -> Turn {
    Turn {
        request: RequestView::Shell { command: exec_command(container, cmd) },
        reply: ReplyView::Exit { success: true, stdout: output, stderr: Seq::empty() },
    }
}

/// What the ledger record of a digest prints: its text and a line feed.
pub open spec fn record_text(digest: Seq<u8>) -> Seq<char> {
    hex_text(digest) + seq!['\n']
}

/// The ledger record of a digest of full length holds that digest.
pub proof fn lemma_record_holds_digest(digest: Seq<u8>)
    requires
        digest.len() == DIGEST_LEN,
    ensures
        recorded_digest(record_text(digest)) == Some(digest),
{
    let text = hex_text(digest);
    lemma_decode_encode(digest);
    assert(text.len() == 64);
    let first = digest[0] as int;
    let last = digest[31] as int;
    assert(0 <= first / 16 < 16 && 0 <= last % 16 < 16);
    assert(text[0] == lower_hex_digit(first / 16));
    assert(text.last() == lower_hex_digit(last % 16));
    lemma_trimmed_line(text);
}

/// The talk in which the item `name` of `entry` is read: the working
/// container is found, and the item's ledger record is printed.
pub open spec fn read_talk(
    running: Seq<ContainerView>,
    working: ContainerView,
    entry: Seq<char>,
    name: Seq<char>,
    digest: Seq<u8>,
) -> Seq<Turn> {
    find_talk(running) + seq![
        command_turn(
            working.id,
            read_ledger_command(data_path(entry, name)),
            record_text(digest),
        ),
    ]
}

/// The path of an item with a plain name names that item.
pub proof fn lemma_data_path_names_item(entry: Seq<char>, name: Seq<char>)
    requires
        plain_name(name),
    ensures
        stored_name(data_path(entry, name)) == Some(name),
{
    reveal_strlit("/data/");
    reveal_strlit("/");
    let dir = "/data/"@ + entry;
    assert("/"@ =~= seq!['/']);
    assert(data_path(entry, name) =~= dir + seq!['/'] + name);
    assert(data_path(entry, name)[0] == '/');
    lemma_final_name_of_child(dir, name);
}

/// Reading an item that a faithful runtime keeps gives the item with the
/// digest of its ledger record.
pub proof fn lemma_read_performs(
    rule: MatchRule,
    image: Seq<char>,
    running: Seq<ContainerView>,
    working: ContainerView,
    entry: Seq<char>,
    name: Seq<char>,
    digest: Seq<u8>,
)
    requires
        serves(rule, running, image, working),
        plain_name(name),
        digest.len() == DIGEST_LEN,
    ensures
        performs(
            |unread: Seq<ReplyView>| read_run(rule, data_path(entry, name), image, unread),
            read_talk(running, working, entry, name, digest),
            Ok::<ContainerItemView, containeritem::ErrorView>(
                ContainerItemView { path: data_path(entry, name), id: name, image, digest },
            ),
        ),
{
    let path = data_path(entry, name);
    let item = ContainerItemView { path, id: name, image, digest };
    lemma_data_path_names_item(entry, name);
    lemma_record_holds_digest(digest);
    lemma_find_performs(rule, image, running, working);
    let turn = command_turn(working.id, read_ledger_command(path), record_text(digest));
    let second = |unread: Seq<ReplyView>|
        attempt(
            exec_run(working.id, read_ledger_command(path), unread),
            |e: dockerclient::ErrorView| containeritem::ErrorView::DockerError(e),
            |printed: (Seq<char>, Seq<char>), after: Seq<ReplyView>|
                Run::Finished(
                    if printed.1.len() != 0 {
                        Err(containeritem::ErrorView::ExecError(printed.1))
                    } else {
                        materialized(path, image, printed.0)
                    },
                    after,
                ),
        );
    lemma_performs_turn(
        second,
        turn.request,
        turn.reply,
        Ok::<ContainerItemView, containeritem::ErrorView>(item),
    );
    lemma_performs_chain(
        |unread: Seq<ReplyView>| read_run(rule, path, image, unread),
        |unread: Seq<ReplyView>| get_or_run_run(rule, image, unread),
        find_talk(running),
        Ok::<ContainerView, dockerclient::ErrorView>(working),
        second,
        seq![turn],
        Ok::<ContainerItemView, containeritem::ErrorView>(item),
    );
}


/// Whether the items of an entry can be listed and read back: every name
/// is plain and every digest has full length.
pub open spec fn sound_shelf(shelf: Map<Seq<char>, Seq<u8>>) -> bool {
    forall|name: Seq<char>| #[trigger]
        shelf.dom().contains(name) ==> plain_name(name) && shelf[name].len() == DIGEST_LEN
}

/// Whether `names` is a listing of `held`: it names what is held and
/// nothing else, in whatever order.
pub open spec fn lists(names: Seq<Seq<char>>, held: Set<Seq<char>>) -> bool {
    &&& forall|i: int| 0 <= i < names.len() ==> held.contains(#[trigger] names[i])
    &&& forall|name: Seq<char>| held.contains(name) ==> names.contains(name)
}

/// How the addition of `candidate` ends for an entry that lists `names`
/// and keeps `shelf`: with the first listed item that has the candidate's
/// digest, or with the candidate stored.
pub open spec fn added(
    names: Seq<Seq<char>>,
    shelf: Map<Seq<char>, Seq<u8>>,
    candidate: Candidate,
) -> AddResultView {
    match first_index(names, |name: Seq<char>| shelf[name] == candidate.digest) {
        Some(i) => AddResultView::ExistedItem(names[i]),
        None => AddResultView::Succ,
    }
}

/// What the entry keeps after the addition: one more item where the
/// candidate was stored, and what it kept before where it was not.
pub open spec fn shelf_after(
    names: Seq<Seq<char>>,
    shelf: Map<Seq<char>, Seq<u8>>,
    candidate: Candidate,
) -> Map<Seq<char>, Seq<u8>> {
    match added(names, shelf, candidate) {
        AddResultView::ExistedItem(_) => shelf,
        AddResultView::Succ => shelf.insert(candidate.id, candidate.digest),
    }
}

/// An entry that can be listed and read back can still be after an
/// addition, when the candidate has a plain name and a digest of full
/// length, as every digest has that `hash` computes.
pub proof fn lemma_shelf_stays_sound(
    names: Seq<Seq<char>>,
    shelf: Map<Seq<char>, Seq<u8>>,
    candidate: Candidate,
)
    requires
        sound_shelf(shelf),
        plain_name(candidate.id),
        candidate.digest.len() == DIGEST_LEN,
    ensures
        sound_shelf(shelf_after(names, shelf, candidate)),
{
    let kept = shelf_after(names, shelf, candidate);
    assert forall|name: Seq<char>| #[trigger] kept.dom().contains(name) implies plain_name(name)
        && kept[name].len() == DIGEST_LEN by {
        if name != candidate.id {
            assert(shelf.dom().contains(name));
        } else if shelf.dom().contains(name) {
            assert(shelf[name].len() == DIGEST_LEN);
        }
    }
}

/// The turn in which a command line runs on the host with success.
pub open spec fn shell_turn(command: Seq<char>) -> Turn {
    Turn {
        request: RequestView::Shell { command },
        reply: ReplyView::Exit { success: true, stdout: Seq::empty(), stderr: Seq::empty() },
    }
}

/// The talk in which the candidate is stored: its content is copied, and
/// its ledger record is written.
pub open spec fn store_talk(working: ContainerView, entry: Seq<char>, candidate: Candidate) -> Seq<
    Turn,
> {
    seq![
        shell_turn(
            copy_command(working.id, true, candidate.path, data_path(entry, candidate.id)),
        ),
        command_turn(
            working.id,
            write_ledger_command(entry, candidate.id, hex_text(candidate.digest)),
            Seq::empty(),
        ),
    ]
}

/// Storing a candidate takes a copy and a write to the ledger.
pub proof fn lemma_store_performs(working: ContainerView, entry: Seq<char>, candidate: Candidate)
    ensures
        performs(
            |unread: Seq<ReplyView>| store_run(working.id, entry, candidate, unread),
            store_talk(working, entry, candidate),
            Ok::<AddResultView, ErrorView>(AddResultView::Succ),
        ),
{
    let copy = shell_turn(
        copy_command(working.id, true, candidate.path, data_path(entry, candidate.id)),
    );
    let write = command_turn(
        working.id,
        write_ledger_command(entry, candidate.id, hex_text(candidate.digest)),
        Seq::empty(),
    );
    let first = |unread: Seq<ReplyView>|
        copy_run(working.id, true, candidate.path, data_path(entry, candidate.id), unread);
    let second = |unread: Seq<ReplyView>|
        output_run(
            working.id,
            write_ledger_command(entry, candidate.id, hex_text(candidate.digest)),
            unread,
        ).map(
            |r: Result<Seq<char>, ErrorView>|
                match r {
                    Ok(_) => Ok(AddResultView::Succ),
                    Err(e) => Err(e),
                },
        );
    lemma_performs_turn(
        first,
        copy.request,
        copy.reply,
        Ok::<(), dockerclient::ErrorView>(()),
    );
    lemma_performs_turn(
        second,
        write.request,
        write.reply,
        Ok::<AddResultView, ErrorView>(AddResultView::Succ),
    );
    lemma_performs_chain(
        |unread: Seq<ReplyView>| store_run(working.id, entry, candidate, unread),
        first,
        seq![copy],
        Ok::<(), dockerclient::ErrorView>(()),
        second,
        seq![write],
        Ok::<AddResultView, ErrorView>(AddResultView::Succ),
    );
    assert(seq![copy] + seq![write] =~= store_talk(working, entry, candidate));
}

/// The talk in which the items `names` are searched for the candidate's
/// content: each is read until one has the candidate's digest, and the
/// candidate is stored when none has.
pub open spec fn scan_talk(
    running: Seq<ContainerView>,
    working: ContainerView,
    entry: Seq<char>,
    names: Seq<Seq<char>>,
    shelf: Map<Seq<char>, Seq<u8>>,
    candidate: Candidate,
) -> Seq<Turn>
    decreases names.len(),
{
    if names.len() == 0 {
        store_talk(working, entry, candidate)
    } else {
        read_talk(running, working, entry, names[0], shelf[names[0]]) + if shelf[names[0]]
            == candidate.digest {
            Seq::empty()
        } else {
            scan_talk(running, working, entry, names.drop_first(), shelf, candidate)
        }
    }
}

/// Against a faithful runtime the search ends as `added` says.
pub proof fn lemma_scan_performs(
    rule: MatchRule,
    image: Seq<char>,
    running: Seq<ContainerView>,
    working: ContainerView,
    entry: Seq<char>,
    names: Seq<Seq<char>>,
    shelf: Map<Seq<char>, Seq<u8>>,
    candidate: Candidate,
)
    requires
        serves(rule, running, image, working),
        sound_shelf(shelf),
        forall|i: int| 0 <= i < names.len() ==> shelf.dom().contains(#[trigger] names[i]),
    ensures
        performs(
            |unread: Seq<ReplyView>|
                scan_run(rule, image, working.id, entry, candidate, names, unread),
            scan_talk(running, working, entry, names, shelf, candidate),
            Ok::<AddResultView, ErrorView>(added(names, shelf, candidate)),
        ),
    decreases names.len(),
{
    let whole = |unread: Seq<ReplyView>|
        scan_run(rule, image, working.id, entry, candidate, names, unread);
    let same = |name: Seq<char>| shelf[name] == candidate.digest;
    if names.len() == 0 {
        lemma_store_performs(working, entry, candidate);
        lemma_performs_same(
            whole,
            |unread: Seq<ReplyView>| store_run(working.id, entry, candidate, unread),
            store_talk(working, entry, candidate),
            Ok::<AddResultView, ErrorView>(AddResultView::Succ),
        );
    } else {
        let name = names[0];
        let rest = names.drop_first();
        assert(shelf.dom().contains(name));
        let item = ContainerItemView {
            path: data_path(entry, name),
            id: name,
            image,
            digest: shelf[name],
        };
        let first = |unread: Seq<ReplyView>| read_run(rule, data_path(entry, name), image, unread);
        lemma_read_performs(rule, image, running, working, entry, name, shelf[name]);
        if shelf[name] == candidate.digest {
            assert(same(names[0]));
            lemma_performs_end(
                whole,
                first,
                read_talk(running, working, entry, name, shelf[name]),
                Ok::<ContainerItemView, containeritem::ErrorView>(item),
                Ok::<AddResultView, ErrorView>(AddResultView::ExistedItem(name)),
            );
            assert(read_talk(running, working, entry, name, shelf[name]) + Seq::<Turn>::empty()
                =~= read_talk(running, working, entry, name, shelf[name]));
        } else {
            assert forall|i: int| 0 <= i < rest.len() implies shelf.dom().contains(
                #[trigger] rest[i],
            ) by {
                assert(rest[i] == names[i + 1]);
            }
            lemma_scan_performs(rule, image, running, working, entry, rest, shelf, candidate);
            assert(!same(names[0]));
            match first_index(rest, same) {
                Some(i) => {
                    lemma_first_index(rest, same);
                    assert(rest[i] == names[i + 1]);
                },
                None => {},
            }
            assert(added(names, shelf, candidate) == added(rest, shelf, candidate));
            lemma_performs_chain(
                whole,
                first,
                read_talk(running, working, entry, name, shelf[name]),
                Ok::<ContainerItemView, containeritem::ErrorView>(item),
                |unread: Seq<ReplyView>|
                    scan_run(rule, image, working.id, entry, candidate, rest, unread),
                scan_talk(running, working, entry, rest, shelf, candidate),
                Ok::<AddResultView, ErrorView>(added(names, shelf, candidate)),
            );
        }
    }
}

/// The talk of an addition: the host path is read, the working container
/// is found, the entry is made sure of and listed, and its items are
/// searched.
pub open spec fn add_talk(
    running: Seq<ContainerView>,
    working: ContainerView,
    entry: Seq<char>,
    itempath: Seq<char>,
    found: HostEntryView,
    names: Seq<Seq<char>>,
    shelf: Map<Seq<char>, Seq<u8>>,
    candidate: Candidate,
) -> Seq<Turn> {
    seq![Turn { request: RequestView::ReadHost { path: itempath }, reply: ReplyView::Host(found) }]
        + (find_talk(running) + (seq![
        command_turn(working.id, ensure_and_list_command(data_dir(entry)), listing_text(names)),
    ] + scan_talk(running, working, entry, names, shelf, candidate)))
}

/// Against a faithful runtime an addition ends as `added` says: with
/// `ExistedItem` and the first listed item that has the content, or with
/// `Succ` after the content and its ledger record were written.
pub proof fn lemma_add_performs(
    rule: MatchRule,
    image: Seq<char>,
    running: Seq<ContainerView>,
    working: ContainerView,
    entry: Seq<char>,
    itempath: Seq<char>,
    rename: Option<Seq<char>>,
    found: HostEntryView,
    names: Seq<Seq<char>>,
    shelf: Map<Seq<char>, Seq<u8>>,
)
    requires
        serves(rule, running, image, working),
        sound_shelf(shelf),
        lists(names, shelf.dom()),
        found != HostEntryView::Missing,
        staged(itempath, rename, found) is Ok,
    ensures
        performs(
            |unread: Seq<ReplyView>| add_run(rule, image, entry, itempath, rename, unread),
            add_talk(
                running,
                working,
                entry,
                itempath,
                found,
                names,
                shelf,
                candidate_of(staged(itempath, rename, found)->Ok_0),
            ),
            Ok::<AddResultView, ErrorView>(
                added(names, shelf, candidate_of(staged(itempath, rename, found)->Ok_0)),
            ),
        ),
{
    let candidate = candidate_of(staged(itempath, rename, found)->Ok_0);
    let value = Ok::<AddResultView, ErrorView>(added(names, shelf, candidate));
    let ask = Turn {
        request: RequestView::ReadHost { path: itempath },
        reply: ReplyView::Host(found),
    };
    let list = command_turn(
        working.id,
        ensure_and_list_command(data_dir(entry)),
        listing_text(names),
    );
    assert forall|i: int| 0 <= i < names.len() implies plain_name(#[trigger] names[i]) by {
        assert(shelf.dom().contains(names[i]));
    }
    lemma_words_of_listing(names);
    lemma_scan_performs(rule, image, running, working, entry, names, shelf, candidate);
    let search = |unread: Seq<ReplyView>|
        scan_run(rule, image, working.id, entry, candidate, names, unread);
    let listing = |unread: Seq<ReplyView>|
        output_run(working.id, ensure_and_list_command(data_dir(entry)), unread);
    lemma_performs_turn(
        listing,
        list.request,
        list.reply,
        Ok::<Seq<char>, ErrorView>(listing_text(names)),
    );
    let listed = |unread: Seq<ReplyView>|
        attempt(
            output_run(working.id, ensure_and_list_command(data_dir(entry)), unread),
            |e: ErrorView| e,
            |text: Seq<char>, after: Seq<ReplyView>|
                scan_run(rule, image, working.id, entry, candidate, words(text), after),
        );
    lemma_performs_chain(
        listed,
        listing,
        seq![list],
        Ok::<Seq<char>, ErrorView>(listing_text(names)),
        search,
        scan_talk(running, working, entry, names, shelf, candidate),
        value,
    );
    lemma_find_performs(rule, image, running, working);
    let place = |unread: Seq<ReplyView>| place_run(rule, image, entry, candidate, unread);
    lemma_performs_chain(
        place,
        |unread: Seq<ReplyView>| get_or_run_run(rule, image, unread),
        find_talk(running),
        Ok::<ContainerView, dockerclient::ErrorView>(working),
        listed,
        seq![list] + scan_talk(running, working, entry, names, shelf, candidate),
        value,
    );
    let read = |unread: Seq<ReplyView>|
        exchange(RequestView::ReadHost { path: itempath }, unread);
    lemma_performs_turn(read, ask.request, ask.reply, ask.reply);
    assert(candidate_from(itempath, rename, ask.reply) == Ok::<Candidate, ErrorView>(candidate));
    lemma_performs_chain(
        |unread: Seq<ReplyView>| add_run(rule, image, entry, itempath, rename, unread),
        read,
        seq![ask],
        ask.reply,
        place,
        find_talk(running) + (seq![list] + scan_talk(
            running,
            working,
            entry,
            names,
            shelf,
            candidate,
        )),
        value,
    );
}


/// Adding the same content twice stores it once. Whatever the first
/// addition found, the entry holds the content after it; so a second
/// addition of content with the same digest, under whatever name and
/// however the entry is listed by now, ends with `ExistedItem` and the name
/// of an item that has the content, and leaves the entry as it was.
pub proof fn lemma_add_is_idempotent(
    names: Seq<Seq<char>>,
    shelf: Map<Seq<char>, Seq<u8>>,
    first: Candidate,
    names_after: Seq<Seq<char>>,
    second: Candidate,
)
    requires
        lists(names, shelf.dom()),
        lists(names_after, shelf_after(names, shelf, first).dom()),
        second.digest == first.digest,
    ensures
        ({
            let kept = shelf_after(names, shelf, first);
            &&& added(names_after, kept, second) matches AddResultView::ExistedItem(name)
                && kept.dom().contains(name) && kept[name] == first.digest
            &&& shelf_after(names_after, kept, second) == kept
        }),
{
    let kept = shelf_after(names, shelf, first);
    let before = |name: Seq<char>| shelf[name] == first.digest;
    let after = |name: Seq<char>| kept[name] == second.digest;
    lemma_first_index(names, before);
    let holder = match first_index(names, before) {
        Some(i) => names[i],
        None => first.id,
    };
    assert(kept.dom().contains(holder) && kept[holder] == first.digest);
    assert(names_after.contains(holder));
    let j = choose|j: int| 0 <= j < names_after.len() && names_after[j] == holder;
    assert(after(names_after[j]));
    lemma_first_index(names_after, after);
}

/// Whether a text begins with `prefix`.
pub open spec fn begins_with(s: Seq<char>, prefix: Seq<char>) -> bool {
    s.len() >= prefix.len() && s.take(prefix.len() as int) == prefix
}

/// Whether a request copies between the host and a container.
pub open spec fn is_copy(request: RequestView) -> bool {
    request matches RequestView::Shell { command } && begins_with(command, "docker cp "@)
}

/// Whether a request commits a container.
pub open spec fn is_commit(request: RequestView) -> bool {
    request matches RequestView::Shell { command } && begins_with(command, "docker commit "@)
}

/// Whether a request pushes an image.
pub open spec fn is_push(request: RequestView) -> bool {
    request matches RequestView::Shell { command } && begins_with(command, "docker push "@)
}

/// What the command lines are: a copy is a copy, a commit a commit and a
/// push a push, and a command that runs inside a container is none of
/// them.
pub proof fn lemma_kinds_of_commands(
    container: Seq<char>,
    cmd: Seq<char>,
    src: Seq<char>,
    dst: Seq<char>,
    message: Seq<char>,
    image: Seq<char>,
)
    ensures
        is_copy(RequestView::Shell { command: copy_command(container, true, src, dst) }),
        is_copy(RequestView::Shell { command: copy_command(container, false, src, dst) }),
        is_commit(RequestView::Shell { command: commit_command(container, message, image) }),
        is_push(RequestView::Shell { command: push_command(image) }),
        !is_copy(RequestView::Shell { command: exec_command(container, cmd) }),
        !is_commit(RequestView::Shell { command: exec_command(container, cmd) }),
        !is_push(RequestView::Shell { command: exec_command(container, cmd) }),
        !is_commit(RequestView::Shell { command: push_command(image) }),
        !is_push(RequestView::Shell { command: commit_command(container, message, image) }),
{
    reveal_strlit("docker cp ");
    reveal_strlit("docker commit ");
    reveal_strlit("docker commit -m \"");
    reveal_strlit("docker push ");
    reveal_strlit("docker exec -i ");
    let exec = exec_command(container, cmd);
    let copy_in = copy_command(container, true, src, dst);
    let copy_out = copy_command(container, false, src, dst);
    let commit = commit_command(container, message, image);
    let push = push_command(image);
    assert(copy_in.take(10) =~= "docker cp "@);
    assert(copy_out.take(10) =~= "docker cp "@);
    assert(commit.take(14) =~= "docker commit "@);
    assert(push.take(12) =~= "docker push "@);
    assert(exec[7] == 'e');
    assert(push[7] == 'p');
    assert(commit[7] == 'c');
    if begins_with(exec, "docker cp "@) {
        assert(exec.take(10)[7] == 'c');
    }
    if begins_with(exec, "docker commit "@) {
        assert(exec.take(14)[7] == 'c');
    }
    if begins_with(exec, "docker push "@) {
        assert(exec.take(12)[7] == 'p');
    }
    if begins_with(push, "docker commit "@) {
        assert(push.take(14)[7] == 'c');
    }
    if begins_with(commit, "docker push "@) {
        assert(commit.take(12)[7] == 'p');
    }
}

/// A search that finds the content copies nothing: no turn of its talk is
/// a copy.
pub proof fn lemma_found_copies_nothing(
    running: Seq<ContainerView>,
    working: ContainerView,
    entry: Seq<char>,
    names: Seq<Seq<char>>,
    shelf: Map<Seq<char>, Seq<u8>>,
    candidate: Candidate,
)
    requires
        added(names, shelf, candidate) is ExistedItem,
    ensures
        forall|k: int|
            0 <= k < scan_talk(running, working, entry, names, shelf, candidate).len() ==> !is_copy(
                (#[trigger] scan_talk(running, working, entry, names, shelf, candidate)[k]).request,
            ),
    decreases names.len(),
{
    let same = |name: Seq<char>| shelf[name] == candidate.digest;
    if names.len() > 0 {
        let name = names[0];
        lemma_kinds_of_commands(
            working.id,
            read_ledger_command(data_path(entry, name)),
            Seq::empty(),
            Seq::empty(),
            Seq::empty(),
            Seq::empty(),
        );
        if !same(names[0]) {
            lemma_found_copies_nothing(
                running,
                working,
                entry,
                names.drop_first(),
                shelf,
                candidate,
            );
        }
    }
}

/// An addition that finds the content copies nothing: no turn of its talk
/// is a copy.
pub proof fn lemma_existing_item_is_not_copied(
    running: Seq<ContainerView>,
    working: ContainerView,
    entry: Seq<char>,
    itempath: Seq<char>,
    found: HostEntryView,
    names: Seq<Seq<char>>,
    shelf: Map<Seq<char>, Seq<u8>>,
    candidate: Candidate,
)
    requires
        added(names, shelf, candidate) is ExistedItem,
    ensures
        forall|k: int|
            0 <= k < add_talk(
                running,
                working,
                entry,
                itempath,
                found,
                names,
                shelf,
                candidate,
            ).len() ==> !is_copy(
                (#[trigger] add_talk(
                    running,
                    working,
                    entry,
                    itempath,
                    found,
                    names,
                    shelf,
                    candidate,
                )[k]).request,
            ),
{
    lemma_found_copies_nothing(running, working, entry, names, shelf, candidate);
    lemma_kinds_of_commands(
        working.id,
        ensure_and_list_command(data_dir(entry)),
        Seq::empty(),
        Seq::empty(),
        Seq::empty(),
        Seq::empty(),
    );
}

/// An addition that does not find the content copies it: the search comes
/// to the turns that store the candidate, and the first of them is a copy.
pub proof fn lemma_new_item_is_copied(
    running: Seq<ContainerView>,
    working: ContainerView,
    entry: Seq<char>,
    names: Seq<Seq<char>>,
    shelf: Map<Seq<char>, Seq<u8>>,
    candidate: Candidate,
)
    requires
        added(names, shelf, candidate) is Succ,
    ensures
        scan_talk(running, working, entry, names, shelf, candidate).len() >= 2,
        is_copy(
            scan_talk(running, working, entry, names, shelf, candidate)[scan_talk(
                running,
                working,
                entry,
                names,
                shelf,
                candidate,
            ).len() - 2].request,
        ),
    decreases names.len(),
{
    let same = |name: Seq<char>| shelf[name] == candidate.digest;
    lemma_kinds_of_commands(
        working.id,
        Seq::empty(),
        candidate.path,
        data_path(entry, candidate.id),
        Seq::empty(),
        Seq::empty(),
    );
    if names.len() > 0 {
        assert(!same(names[0]));
        lemma_new_item_is_copied(running, working, entry, names.drop_first(), shelf, candidate);
    }
}


/// Whether the entries of a store can be listed and read back: every
/// entry has a plain name and keeps a sound shelf.
pub open spec fn sound_volume(volume: Map<Seq<char>, Map<Seq<char>, Seq<u8>>>) -> bool {
    forall|entry: Seq<char>| #[trigger]
        volume.dom().contains(entry) ==> plain_name(entry) && sound_shelf(volume[entry])
}

/// The talk in which a directory of the working container is listed.
pub open spec fn list_talk(
    running: Seq<ContainerView>,
    working: ContainerView,
    dir: Seq<char>,
    names: Seq<Seq<char>>,
) -> Seq<Turn> {
    find_talk(running) + seq![command_turn(working.id, list_command(dir), listing_text(names))]
}

/// Listing a directory of a faithful runtime gives the names it holds.
pub proof fn lemma_list_performs(
    rule: MatchRule,
    image: Seq<char>,
    running: Seq<ContainerView>,
    working: ContainerView,
    dir: Seq<char>,
    names: Seq<Seq<char>>,
)
    requires
        serves(rule, running, image, working),
        forall|i: int| 0 <= i < names.len() ==> plain_name(#[trigger] names[i]),
    ensures
        performs(
            |unread: Seq<ReplyView>| ls_run(rule, image, dir, unread),
            list_talk(running, working, dir, names),
            Ok::<Seq<Seq<char>>, ErrorView>(names),
        ),
{
    lemma_words_of_listing(names);
    lemma_find_performs(rule, image, running, working);
    let turn = command_turn(working.id, list_command(dir), listing_text(names));
    let second = |unread: Seq<ReplyView>|
        output_run(working.id, list_command(dir), unread).map(
            |r: Result<Seq<char>, ErrorView>|
                match r {
                    Ok(output) => Ok(words(output)),
                    Err(e) => Err(e),
                },
        );
    lemma_performs_turn(second, turn.request, turn.reply, Ok::<Seq<Seq<char>>, ErrorView>(names));
    lemma_performs_chain(
        |unread: Seq<ReplyView>| ls_run(rule, image, dir, unread),
        |unread: Seq<ReplyView>| get_or_run_run(rule, image, unread),
        find_talk(running),
        Ok::<ContainerView, dockerclient::ErrorView>(working),
        second,
        seq![turn],
        Ok::<Seq<Seq<char>>, ErrorView>(names),
    );
}

/// Listing the entries of a faithful runtime gives the entries it holds.
pub proof fn lemma_entries_performs(
    rule: MatchRule,
    image: Seq<char>,
    running: Seq<ContainerView>,
    working: ContainerView,
    volume: Map<Seq<char>, Map<Seq<char>, Seq<u8>>>,
    entries: Seq<Seq<char>>,
)
    requires
        serves(rule, running, image, working),
        sound_volume(volume),
        lists(entries, volume.dom()),
    ensures
        performs(
            |unread: Seq<ReplyView>| entries_run(rule, image, unread),
            list_talk(running, working, data_root(), entries),
            Ok::<Seq<Seq<char>>, ErrorView>(entries),
        ),
{
    assert forall|i: int| 0 <= i < entries.len() implies plain_name(#[trigger] entries[i]) by {
        assert(volume.dom().contains(entries[i]));
    }
    lemma_list_performs(rule, image, running, working, data_root(), entries);
    lemma_performs_same(
        |unread: Seq<ReplyView>| entries_run(rule, image, unread),
        |unread: Seq<ReplyView>| ls_run(rule, image, data_root(), unread),
        list_talk(running, working, data_root(), entries),
        Ok::<Seq<Seq<char>>, ErrorView>(entries),
    );
}

/// The talk in which the items of `entry` are listed: the one listing of
/// the entry's directory.
pub open spec fn items_talk(
    running: Seq<ContainerView>,
    working: ContainerView,
    entry: Seq<char>,
    names: Seq<Seq<char>>,
) -> Seq<Turn> {
    list_talk(running, working, data_dir(entry), names)
}

/// Listing the items of an entry of a faithful runtime takes the one
/// listing of the entry's directory, and gives the items that the entry
/// holds.
pub proof fn lemma_items_performs(
    rule: MatchRule,
    image: Seq<char>,
    running: Seq<ContainerView>,
    working: ContainerView,
    volume: Map<Seq<char>, Map<Seq<char>, Seq<u8>>>,
    entry: Seq<char>,
    names: Seq<Seq<char>>,
)
    requires
        serves(rule, running, image, working),
        sound_volume(volume),
        volume.dom().contains(entry),
        lists(names, volume[entry].dom()),
    ensures
        performs(
            |unread: Seq<ReplyView>| items_run(rule, image, entry, unread),
            items_talk(running, working, entry, names),
            Ok::<Seq<Seq<char>>, ErrorView>(names),
        ),
        items_talk(running, working, entry, names).len() == 2,
        items_talk(running, working, entry, names)[1].request == (RequestView::Shell {
            command: exec_command(working.id, "ls "@ + data_dir(entry)),
        }),
{
    assert(sound_shelf(volume[entry]));
    assert forall|i: int| 0 <= i < names.len() implies plain_name(#[trigger] names[i]) by {
        assert(volume[entry].dom().contains(names[i]));
    }
    lemma_list_performs(rule, image, running, working, data_dir(entry), names);
    lemma_performs_same(
        |unread: Seq<ReplyView>| items_run(rule, image, entry, unread),
        |unread: Seq<ReplyView>| ls_run(rule, image, data_dir(entry), unread),
        list_talk(running, working, data_dir(entry), names),
        Ok::<Seq<Seq<char>>, ErrorView>(names),
    );
}

/// The talk in which the items of an entry are listed that the store does
/// not hold: the listing of its directory prints nothing but diagnostics.
pub open spec fn missing_talk(
    running: Seq<ContainerView>,
    working: ContainerView,
    entry: Seq<char>,
    diagnostics: Seq<char>,
) -> Seq<Turn> {
    find_talk(running) + seq![
        Turn {
            request: RequestView::Shell {
                command: exec_command(working.id, list_command(data_dir(entry))),
            },
            reply: ReplyView::Exit {
                success: false,
                stdout: Seq::empty(),
                stderr: diagnostics,
            },
        },
    ]
}

/// Listing the items of an entry that the store does not hold ends with
/// `ExecError` and what the listing said.
pub proof fn lemma_missing_entry_performs(
    rule: MatchRule,
    image: Seq<char>,
    running: Seq<ContainerView>,
    working: ContainerView,
    entry: Seq<char>,
    diagnostics: Seq<char>,
)
    requires
        serves(rule, running, image, working),
        diagnostics.len() > 0,
    ensures
        performs(
            |unread: Seq<ReplyView>| items_run(rule, image, entry, unread),
            missing_talk(running, working, entry, diagnostics),
            Err::<Seq<Seq<char>>, ErrorView>(ErrorView::ExecError(diagnostics)),
        ),
{
    lemma_find_performs(rule, image, running, working);
    let turn = missing_talk(running, working, entry, diagnostics)[1];
    let failed = Err::<Seq<Seq<char>>, ErrorView>(ErrorView::ExecError(diagnostics));
    let second = |unread: Seq<ReplyView>|
        output_run(working.id, list_command(data_dir(entry)), unread).map(
            |r: Result<Seq<char>, ErrorView>|
                match r {
                    Ok(output) => Ok(words(output)),
                    Err(e) => Err(e),
                },
        );
    lemma_performs_turn(second, turn.request, turn.reply, failed);
    lemma_performs_chain(
        |unread: Seq<ReplyView>| items_run(rule, image, entry, unread),
        |unread: Seq<ReplyView>| get_or_run_run(rule, image, unread),
        find_talk(running),
        Ok::<ContainerView, dockerclient::ErrorView>(working),
        second,
        seq![turn],
        failed,
    );
}

/// The talk of a deletion: the working container is found, and one
/// command in it removes the data and its mirror in the ledger.
pub open spec fn delete_talk(
    running: Seq<ContainerView>,
    working: ContainerView,
    entry: Seq<char>,
    item: Option<Seq<char>>,
) -> Seq<Turn> {
    find_talk(running) + seq![
        command_turn(working.id, remove_command(target(entry, item)), Seq::empty()),
    ]
}

/// Against a faithful runtime a deletion succeeds, and what it asks the
/// working container to remove is the data together with its mirror in
/// the ledger.
pub proof fn lemma_delete_performs(
    rule: MatchRule,
    image: Seq<char>,
    running: Seq<ContainerView>,
    working: ContainerView,
    entry: Seq<char>,
    item: Option<Seq<char>>,
)
    requires
        serves(rule, running, image, working),
    ensures
        performs(
            |unread: Seq<ReplyView>| delete_run(rule, image, entry, item, unread),
            delete_talk(running, working, entry, item),
            Ok::<(), ErrorView>(()),
        ),
        delete_talk(running, working, entry, item).last().request == (RequestView::Shell {
            command: exec_command(
                working.id,
                "rm -rf "@ + target(entry, item) + " "@ + ledger_path(target(entry, item)),
            ),
        }),
{
    lemma_find_performs(rule, image, running, working);
    let turn = command_turn(working.id, remove_command(target(entry, item)), Seq::empty());
    let second = |unread: Seq<ReplyView>|
        output_run(working.id, remove_command(target(entry, item)), unread).map(
            |r: Result<Seq<char>, ErrorView>|
                match r {
                    Ok(_) => Ok(()),
                    Err(e) => Err(e),
                },
        );
    lemma_performs_turn(second, turn.request, turn.reply, Ok::<(), ErrorView>(()));
    lemma_performs_chain(
        |unread: Seq<ReplyView>| delete_run(rule, image, entry, item, unread),
        |unread: Seq<ReplyView>| get_or_run_run(rule, image, unread),
        find_talk(running),
        Ok::<ContainerView, dockerclient::ErrorView>(working),
        second,
        seq![turn],
        Ok::<(), ErrorView>(()),
    );
}

/// What a store keeps after a deletion: the entry without the item, or
/// the store without the entry. Data and ledger go together.
pub open spec fn removed(
    volume: Map<Seq<char>, Map<Seq<char>, Seq<u8>>>,
    entry: Seq<char>,
    item: Option<Seq<char>>,
) -> Map<Seq<char>, Map<Seq<char>, Seq<u8>>> {
    match item {
        None => volume.remove(entry),
        Some(id) => if volume.dom().contains(entry) {
            volume.insert(entry, volume[entry].remove(id))
        } else {
            volume
        },
    }
}

/// After an item was deleted, no listing of its entry names it: listing
/// the items gives the names that are left, and the item is not among
/// them.
pub proof fn lemma_deleted_item_is_not_listed(
    rule: MatchRule,
    image: Seq<char>,
    running: Seq<ContainerView>,
    working: ContainerView,
    volume: Map<Seq<char>, Map<Seq<char>, Seq<u8>>>,
    entry: Seq<char>,
    item: Seq<char>,
    names: Seq<Seq<char>>,
)
    requires
        serves(rule, running, image, working),
        sound_volume(volume),
        volume.dom().contains(entry),
        lists(names, removed(volume, entry, Some(item))[entry].dom()),
    ensures
        performs(
            |unread: Seq<ReplyView>| items_run(rule, image, entry, unread),
            items_talk(running, working, entry, names),
            Ok::<Seq<Seq<char>>, ErrorView>(names),
        ),
        !names.contains(item),
        !removed(volume, entry, Some(item))[entry].dom().contains(item),
{
    let left = removed(volume, entry, Some(item));
    assert(left.dom().contains(entry));
    assert forall|e: Seq<char>| #[trigger] left.dom().contains(e) implies plain_name(e)
        && sound_shelf(left[e]) by {
        assert(volume.dom().contains(e));
        assert(sound_shelf(volume[e]));
        if e == entry {
            assert forall|n: Seq<char>| #[trigger] left[e].dom().contains(n) implies plain_name(n)
                && left[e][n].len() == DIGEST_LEN by {
                assert(volume[e].dom().contains(n));
            }
        }
    }
    lemma_items_performs(rule, image, running, working, left, entry, names);
    if names.contains(item) {
        let i = choose|i: int| 0 <= i < names.len() && names[i] == item;
        assert(left[entry].dom().contains(names[i]));
    }
}

/// After an entry was deleted, no listing of the store names it: listing
/// the entries gives the names that are left, and the entry is not among
/// them. Listing its items, which a faithful runtime answers with
/// diagnostics, ends with `ExecError`.
pub proof fn lemma_deleted_entry_is_not_listed(
    rule: MatchRule,
    image: Seq<char>,
    running: Seq<ContainerView>,
    working: ContainerView,
    volume: Map<Seq<char>, Map<Seq<char>, Seq<u8>>>,
    entry: Seq<char>,
    entries: Seq<Seq<char>>,
    diagnostics: Seq<char>,
)
    requires
        serves(rule, running, image, working),
        sound_volume(volume),
        lists(entries, removed(volume, entry, None).dom()),
        diagnostics.len() > 0,
    ensures
        performs(
            |unread: Seq<ReplyView>| entries_run(rule, image, unread),
            list_talk(running, working, data_root(), entries),
            Ok::<Seq<Seq<char>>, ErrorView>(entries),
        ),
        !entries.contains(entry),
        !removed(volume, entry, None).dom().contains(entry),
        performs(
            |unread: Seq<ReplyView>| items_run(rule, image, entry, unread),
            missing_talk(running, working, entry, diagnostics),
            Err::<Seq<Seq<char>>, ErrorView>(ErrorView::ExecError(diagnostics)),
        ),
{
    let left = removed(volume, entry, None);
    assert forall|e: Seq<char>| #[trigger] left.dom().contains(e) implies plain_name(e)
        && sound_shelf(left[e]) by {
        assert(volume.dom().contains(e));
    }
    lemma_entries_performs(rule, image, running, working, left, entries);
    if entries.contains(entry) {
        let i = choose|i: int| 0 <= i < entries.len() && entries[i] == entry;
        assert(left.dom().contains(entries[i]));
    }
    lemma_missing_entry_performs(rule, image, running, working, entry, diagnostics);
}


/// The talk in which a new container is made: it is created, looked up
/// among all containers, and started.
pub open spec fn run_talk(image: Seq<char>, fresh: ContainerView, all: Seq<ContainerView>) -> Seq<
    Turn,
> {
    seq![
        Turn {
            request: RequestView::CreateContainer { image },
            reply: ReplyView::Created(fresh.id),
        },
        Turn {
            request: RequestView::ListContainers { all: true },
            reply: ReplyView::Containers(all),
        },
        Turn {
            request: RequestView::StartContainer { container: fresh.id },
            reply: ReplyView::Done,
        },
    ]
}

/// Against a faithful runtime a new container is made in three turns.
pub proof fn lemma_run_performs(image: Seq<char>, fresh: ContainerView, all: Seq<ContainerView>)
    requires
        created_among(all, fresh.id) == Ok::<ContainerView, dockerclient::ErrorView>(fresh),
    ensures
        performs(
            |unread: Seq<ReplyView>| run_run(image, unread),
            run_talk(image, fresh, all),
            Ok::<ContainerView, dockerclient::ErrorView>(fresh),
        ),
{
    let talk = run_talk(image, fresh, all);
    let made = Ok::<ContainerView, dockerclient::ErrorView>(fresh);
    let ask = |unread: Seq<ReplyView>|
        exchange(RequestView::CreateContainer { image }, unread);
    lemma_performs_turn(ask, talk[0].request, talk[0].reply, talk[0].reply);
    let look = |unread: Seq<ReplyView>|
        ps_run(true, unread).map(
            |listed: Result<Seq<ContainerView>, dockerclient::ErrorView>|
                match listed {
                    Ok(list) => created_among(list, fresh.id),
                    Err(e) => Err(e),
                },
        );
    lemma_performs_turn(look, talk[1].request, talk[1].reply, made);
    let create = |unread: Seq<ReplyView>| create_run(image, unread);
    lemma_performs_chain(create, ask, seq![talk[0]], talk[0].reply, look, seq![talk[1]], made);
    let start = |unread: Seq<ReplyView>|
        start_run(fresh.id, unread).map(
            |started: Result<(), dockerclient::ErrorView>|
                match started {
                    Ok(_) => Ok(fresh),
                    Err(e) => Err(e),
                },
        );
    lemma_performs_turn(start, talk[2].request, talk[2].reply, made);
    lemma_performs_chain(
        |unread: Seq<ReplyView>| run_run(image, unread),
        create,
        seq![talk[0]] + seq![talk[1]],
        made,
        start,
        seq![talk[2]],
        made,
    );
    assert((seq![talk[0]] + seq![talk[1]]) + seq![talk[2]] =~= talk);
}

/// The talk in which the working container is compared with the
/// published image: the working container is found, a fresh container is
/// made from the image, and the ledger of each prints its signature.
pub open spec fn diff_talk(
    image: Seq<char>,
    running: Seq<ContainerView>,
    working: ContainerView,
    fresh: ContainerView,
    all: Seq<ContainerView>,
    working_signature: Seq<char>,
    published_signature: Seq<char>,
) -> Seq<Turn> {
    find_talk(running) + (run_talk(image, fresh, all) + seq![
        command_turn(working.id, signature_command(), working_signature),
        command_turn(fresh.id, signature_command(), published_signature),
    ])
}

/// Against a faithful runtime the comparison tells whether the two
/// signatures differ.
pub proof fn lemma_diff_performs(
    rule: MatchRule,
    image: Seq<char>,
    running: Seq<ContainerView>,
    working: ContainerView,
    fresh: ContainerView,
    all: Seq<ContainerView>,
    working_signature: Seq<char>,
    published_signature: Seq<char>,
)
    requires
        serves(rule, running, image, working),
        created_among(all, fresh.id) == Ok::<ContainerView, dockerclient::ErrorView>(fresh),
    ensures
        performs(
            |unread: Seq<ReplyView>| diff_run(rule, image, unread),
            diff_talk(image, running, working, fresh, all, working_signature, published_signature),
            Ok::<bool, ErrorView>(
                diverged(trimmed(working_signature), trimmed(published_signature)),
            ),
        ),
{
    let mine = command_turn(working.id, signature_command(), working_signature);
    let theirs = command_turn(fresh.id, signature_command(), published_signature);
    let changed = Ok::<bool, ErrorView>(
        diverged(trimmed(working_signature), trimmed(published_signature)),
    );
    let read_mine = |unread: Seq<ReplyView>| checksum_run(working.id, unread);
    lemma_performs_turn(
        read_mine,
        mine.request,
        mine.reply,
        Ok::<Seq<char>, ErrorView>(trimmed(working_signature)),
    );
    let read_theirs = |unread: Seq<ReplyView>|
        checksum_run(fresh.id, unread).map(
            |r: Result<Seq<char>, ErrorView>|
                match r {
                    Ok(published) => Ok(diverged(trimmed(working_signature), published)),
                    Err(e) => Err(e),
                },
        );
    lemma_performs_turn(read_theirs, theirs.request, theirs.reply, changed);
    let compare = |unread: Seq<ReplyView>|
        attempt(
            checksum_run(working.id, unread),
            |e: ErrorView| e,
            |first: Seq<char>, r3: Seq<ReplyView>|
                checksum_run(fresh.id, r3).map(
                    |r: Result<Seq<char>, ErrorView>|
                        match r {
                            Ok(published) => Ok(diverged(first, published)),
                            Err(e) => Err(e),
                        },
                ),
        );
    lemma_performs_chain(
        compare,
        read_mine,
        seq![mine],
        Ok::<Seq<char>, ErrorView>(trimmed(working_signature)),
        read_theirs,
        seq![theirs],
        changed,
    );
    assert(seq![mine] + seq![theirs] =~= seq![mine, theirs]);
    lemma_run_performs(image, fresh, all);
    let make = |unread: Seq<ReplyView>|
        attempt(
            run_run(image, unread),
            runtime_failure(),
            |made: ContainerView, r2: Seq<ReplyView>|
                attempt(
                    checksum_run(working.id, r2),
                    |e: ErrorView| e,
                    |first: Seq<char>, r3: Seq<ReplyView>|
                        checksum_run(made.id, r3).map(
                            |r: Result<Seq<char>, ErrorView>|
                                match r {
                                    Ok(published) => Ok(diverged(first, published)),
                                    Err(e) => Err(e),
                                },
                        ),
                ),
        );
    lemma_performs_chain(
        make,
        |unread: Seq<ReplyView>| run_run(image, unread),
        run_talk(image, fresh, all),
        Ok::<ContainerView, dockerclient::ErrorView>(fresh),
        compare,
        seq![mine, theirs],
        changed,
    );
    lemma_find_performs(rule, image, running, working);
    lemma_performs_chain(
        |unread: Seq<ReplyView>| diff_run(rule, image, unread),
        |unread: Seq<ReplyView>| get_or_run_run(rule, image, unread),
        find_talk(running),
        Ok::<ContainerView, dockerclient::ErrorView>(working),
        make,
        run_talk(image, fresh, all) + seq![mine, theirs],
        changed,
    );
}

/// The turns with which a synchronisation ends: a commit where the
/// working container has changed, and a push in any case.
pub open spec fn publish_talk(
    image: Seq<char>,
    working: ContainerView,
    changed: bool,
) -> Seq<Turn> {
    if changed {
        seq![
            shell_turn(commit_command(working.id, commit_message(), image)),
            shell_turn(push_command(image)),
        ]
    } else {
        seq![shell_turn(push_command(image))]
    }
}

/// The talk of a synchronisation: the working container is found and
/// compared with the published image, and the image is published.
pub open spec fn sync_talk(
    image: Seq<char>,
    running: Seq<ContainerView>,
    working: ContainerView,
    fresh: ContainerView,
    all: Seq<ContainerView>,
    working_signature: Seq<char>,
    published_signature: Seq<char>,
) -> Seq<Turn> {
    find_talk(running) + (diff_talk(
        image,
        running,
        working,
        fresh,
        all,
        working_signature,
        published_signature,
    ) + publish_talk(
        image,
        working,
        diverged(trimmed(working_signature), trimmed(published_signature)),
    ))
}

/// Against a faithful runtime a synchronisation succeeds with the talk
/// `sync_talk`: it commits where the signatures differ, and it pushes.
pub proof fn lemma_sync_performs(
    rule: MatchRule,
    account: Option<Account>,
    image: Seq<char>,
    running: Seq<ContainerView>,
    working: ContainerView,
    fresh: ContainerView,
    all: Seq<ContainerView>,
    working_signature: Seq<char>,
    published_signature: Seq<char>,
)
    requires
        serves(rule, running, image, working),
        created_among(all, fresh.id) == Ok::<ContainerView, dockerclient::ErrorView>(fresh),
    ensures
        performs(
            |unread: Seq<ReplyView>| sync_run(rule, account, image, unread),
            sync_talk(image, running, working, fresh, all, working_signature, published_signature),
            Ok::<(), ErrorView>(()),
        ),
{
    let changed = diverged(trimmed(working_signature), trimmed(published_signature));
    let done = Ok::<(), ErrorView>(());
    let push = shell_turn(push_command(image));
    let commit = shell_turn(commit_command(working.id, commit_message(), image));
    let publish = |unread: Seq<ReplyView>| publish_run(account, image, unread);
    lemma_performs_turn(publish, push.request, push.reply, done);
    let finish = |unread: Seq<ReplyView>|
        if changed {
            attempt(
                commit_run(working.id, commit_message(), image, unread),
                runtime_failure(),
                |committed: (), r3: Seq<ReplyView>| publish_run(account, image, r3),
            )
        } else {
            publish_run(account, image, unread)
        };
    if changed {
        let committing = |unread: Seq<ReplyView>|
            commit_run(working.id, commit_message(), image, unread);
        lemma_performs_turn(
            committing,
            commit.request,
            commit.reply,
            Ok::<(), dockerclient::ErrorView>(()),
        );
        lemma_performs_chain(
            finish,
            committing,
            seq![commit],
            Ok::<(), dockerclient::ErrorView>(()),
            publish,
            seq![push],
            done,
        );
        assert(seq![commit] + seq![push] =~= publish_talk(image, working, changed));
    } else {
        lemma_performs_same(finish, publish, seq![push], done);
    }
    lemma_diff_performs(
        rule,
        image,
        running,
        working,
        fresh,
        all,
        working_signature,
        published_signature,
    );
    let compare = |unread: Seq<ReplyView>|
        attempt(
            diff_run(rule, image, unread),
            |e: ErrorView| e,
            |differs: bool, r2: Seq<ReplyView>|
                if differs {
                    attempt(
                        commit_run(working.id, commit_message(), image, r2),
                        runtime_failure(),
                        |committed: (), r3: Seq<ReplyView>| publish_run(account, image, r3),
                    )
                } else {
                    publish_run(account, image, r2)
                },
        );
    lemma_performs_chain(
        compare,
        |unread: Seq<ReplyView>| diff_run(rule, image, unread),
        diff_talk(image, running, working, fresh, all, working_signature, published_signature),
        Ok::<bool, ErrorView>(changed),
        finish,
        publish_talk(image, working, changed),
        done,
    );
    lemma_find_performs(rule, image, running, working);
    lemma_performs_chain(
        |unread: Seq<ReplyView>| sync_run(rule, account, image, unread),
        |unread: Seq<ReplyView>| get_or_run_run(rule, image, unread),
        find_talk(running),
        Ok::<ContainerView, dockerclient::ErrorView>(working),
        compare,
        diff_talk(image, running, working, fresh, all, working_signature, published_signature)
            + publish_talk(image, working, changed),
        done,
    );
}

/// The signature of the published image after a synchronisation: that of
/// the working container where it was committed, and what it was before
/// where nothing was committed.
pub open spec fn published_after(
    working_signature: Seq<char>,
    published_signature: Seq<char>,
) -> Seq<char> {
    if diverged(trimmed(working_signature), trimmed(published_signature)) {
        working_signature
    } else {
        published_signature
    }
}

/// Two synchronisations in a row, with nothing changed in between, commit
/// at most once and push twice. The first commits where the working
/// container differs from the published image, and in no other turn; the
/// second, which meets the image that the first left, commits in no turn
/// at all; and the last turn of each is a push.
pub proof fn lemma_second_sync_commits_nothing(
    image: Seq<char>,
    running: Seq<ContainerView>,
    working: ContainerView,
    fresh: ContainerView,
    all: Seq<ContainerView>,
    later: ContainerView,
    all_later: Seq<ContainerView>,
    working_signature: Seq<char>,
    published_signature: Seq<char>,
)
    ensures
        ({
            let first = sync_talk(
                image,
                running,
                working,
                fresh,
                all,
                working_signature,
                published_signature,
            );
            let second = sync_talk(
                image,
                running,
                working,
                later,
                all_later,
                working_signature,
                published_after(working_signature, published_signature),
            );
            &&& forall|k: int| 0 <= k < second.len() ==> !is_commit((#[trigger] second[k]).request)
            &&& forall|j: int, k: int|
                0 <= j < first.len() && 0 <= k < first.len() && is_commit(
                    (#[trigger] first[j]).request,
                ) && is_commit((#[trigger] first[k]).request) ==> j == k
            &&& is_push(first.last().request)
            &&& is_push(second.last().request)
        }),
{
    let first = sync_talk(
        image,
        running,
        working,
        fresh,
        all,
        working_signature,
        published_signature,
    );
    let second = sync_talk(
        image,
        running,
        working,
        later,
        all_later,
        working_signature,
        published_after(working_signature, published_signature),
    );
    lemma_kinds_of_commands(
        working.id,
        signature_command(),
        Seq::empty(),
        Seq::empty(),
        commit_message(),
        image,
    );
    lemma_kinds_of_commands(
        fresh.id,
        signature_command(),
        Seq::empty(),
        Seq::empty(),
        commit_message(),
        image,
    );
    lemma_kinds_of_commands(
        later.id,
        signature_command(),
        Seq::empty(),
        Seq::empty(),
        commit_message(),
        image,
    );
    assert(!diverged(
        trimmed(working_signature),
        trimmed(published_after(working_signature, published_signature)),
    ));
    assert(second.len() == 8);
    assert(first.len() == 8 || first.len() == 9);
    assert forall|k: int| 0 <= k < second.len() implies !is_commit(
        (#[trigger] second[k]).request,
    ) by {}
    assert forall|j: int, k: int|
        0 <= j < first.len() && 0 <= k < first.len() && is_commit((#[trigger] first[j]).request)
            && is_commit((#[trigger] first[k]).request) implies j == k by {
        assert(j >= 7);
        assert(k >= 7);
    }
}

} // verus!

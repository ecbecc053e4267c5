//! What holds of the operations on every store.

use vstd::prelude::*;
use crate::attributes::Attributes;
use crate::chunk::chunk_id;
use crate::directory::{
    add_keeps_directory_well_formed, lemma_first_named_at, DirectoryModel, EntryModel,
    ListEntryModel,
};
use crate::engine::{advance_model, begin, created_file, record_attributes};
use crate::error::FsError;
use crate::file::{
    chunk_bytes, chunk_count, chunk_len, empty_file, end_chunk, file_of, first_chunk, piece_of,
    range_end, range_start, FileModel, CHUNK_SIZE,
};
use crate::inode::{DataId, Inode, InodeId, InodeKind, ROOT_INODE};
use crate::protocol::{
    GoalModel, OperationModel, ReplyModel, RequestModel, ResponseModel, StepModel, TaskModel,
};
use crate::record::{Key, RecordModel};
use crate::semantics::{
    attributes, chunk_at, collect_kinds, create, directory_at, directory_record, file_at, gather,
    inode_at, lemma_run_swap, list, lookup, meaning, read, run, run_computes_meaning, serve_model,
    store_chunks, swap_target, target_of, StoreModel,
};

verus! {

/// What was stored is what is loaded: a read of a key returns the record of
/// the last write to it, and a write leaves every other key as it was.
pub proof fn stored_record_is_loaded(store: StoreModel, record: RecordModel, other: Key)
    requires
        other != record.key(),
    ensures
        ({
            let (after, answer) = serve_model(store, RequestModel::Store(record));
            &&& answer == ResponseModel::Stored
            &&& serve_model(after, RequestModel::Load(record.key())) == (
                after,
                ResponseModel::Found(record),
            )
            &&& serve_model(after, RequestModel::Load(other)).1 == serve_model(
                store,
                RequestModel::Load(other),
            ).1
        }),
{
}

/// How far a task is from its end: the stage of the operation, and within
/// the stage the number of entries or chunks that are still to come.
pub open spec fn rank(task: TaskModel) -> (nat, nat) {
    match task {
        TaskModel::Resolve { ino, goal } => (
            if goal is Lookup {
                12
            } else {
                8
            },
            0,
        ),
        TaskModel::Deref { inode, goal } => (
            if goal is Lookup {
                11
            } else {
                7
            },
            0,
        ),
        TaskModel::Kinds { ino, dir, offset, kinds } => (
            6,
            if dir.first_listed(offset as int) + kinds.len() < dir.entries.len() {
                (dir.entries.len() - dir.first_listed(offset as int) - kinds.len()) as nat
            } else {
                0
            },
        ),
        TaskModel::Chunks { file, next, last, start, end, out } => (
            6,
            if next < last {
                (last - next) as nat
            } else {
                0
            },
        ),
        TaskModel::StoreFile { parent, name, dir_id, created } => (10, 0),
        TaskModel::StoreInode { parent, name, dir_id, created } => (9, 0),
        TaskModel::StoreChunks { ino, file, data, next } => (
            6,
            if next < file.chunks.len() {
                (file.chunks.len() - next) as nat
            } else {
                0
            },
        ),
        TaskModel::StoreRecord { ino, file } => (5, 0),
        TaskModel::StoreDirectory { parent, dir_id, created } => (4, 0),
        TaskModel::Swap { id, target, kind, ending } => (3, 0),
        TaskModel::Commit { reply } => (2, 0),
    }
}

/// Every answer brings a task nearer to its end, whatever the store says:
/// the operation is over, or the task that goes on has a smaller rank. No
/// operation runs for ever, on no store.
pub proof fn every_answer_makes_progress(task: TaskModel, response: ResponseModel)
    ensures
        advance_model(task, response) matches StepModel::Continue(next, request) ==> {
            ||| rank(next).0 < rank(task).0
            ||| rank(next).0 == rank(task).0 && rank(next).1 < rank(task).1
        },
{
}

/// The inode found under an identifier carries that identifier.
pub proof fn inode_carries_its_identifier(store: StoreModel, id: InodeId)
    ensures
        inode_at(store, id) matches Ok(inode) ==> inode.id == id,
{
}

/// Repointing an inode that is there succeeds, keeps its identifier and
/// leaves every other record as it was. Afterwards the inode is found with
/// the new target and kind, and its attributes are those of the record that
/// the new target names.
pub proof fn swap_target_keeps_identity(
    store: StoreModel,
    id: InodeId,
    target: DataId,
    kind: InodeKind,
)
    ensures
        ({
            let (after, swapped) = swap_target(store, id, target, kind);
            let inode = Inode { id, target, kind };
            &&& swapped is Ok <==> inode_at(store, id) is Ok
            &&& swapped is Err ==> after == store && swapped == inode_at(store, id)
            &&& swapped is Ok ==> {
                &&& swapped == Ok::<Inode, FsError>(inode)
                &&& inode_at(after, id) == Ok::<Inode, FsError>(inode)
                &&& forall|key: Key|
                    key != Key::inode(id) ==> after.contains_key(key) == store.contains_key(key)
                        && after[key] == store[key]
                &&& target_of(after, inode) == target_of(store, inode)
                &&& attributes(after, id) == match target_of(store, inode) {
                    Err(e) => Err::<ReplyModel, FsError>(e),
                    Ok(record) => Ok(ReplyModel::Attributes(record_attributes(id, record))),
                }
            }
        }),
{
}

/// Of two swaps of one inode the later one decides what the inode points at.
pub proof fn last_swap_wins(
    store: StoreModel,
    id: InodeId,
    first_target: DataId,
    first_kind: InodeKind,
    target: DataId,
    kind: InodeKind,
)
    requires
        inode_at(store, id) is Ok,
    ensures
        ({
            let (once, _) = swap_target(store, id, first_target, first_kind);
            let (twice, _) = swap_target(once, id, target, kind);
            inode_at(twice, id) == Ok::<Inode, FsError>(Inode { id, target, kind })
        }),
{
}

/// The root inode is there, is of kind directory, and the store holds the
/// directory that it points at.
pub open spec fn root_is_directory(store: StoreModel) -> bool {
    directory_at(store, ROOT_INODE) is Ok
}

/// The operations that leave the root a directory. Those that do not: a
/// creation whose new inode was handed the root's identifier, and a swap of
/// the root inode to another kind or to a directory that the store does not
/// hold.
pub open spec fn spares_root(store: StoreModel, op: OperationModel) -> bool {
    match op {
        OperationModel::SwapTarget { id, target, kind } => id != ROOT_INODE || (kind
            is Directory && directory_record(store, target) is Ok),
        OperationModel::Create { parent, name, file_id, inode_id, dir_id } => inode_id
            != ROOT_INODE,
        _ => true,
    }
}

/// Where the root is a directory, asking for its attributes succeeds, and
/// they are those of a directory behind the root's identifier.
pub proof fn root_attributes_report_directory(store: StoreModel)
    requires
        root_is_directory(store),
    ensures
        attributes(store, ROOT_INODE) matches Ok(ReplyModel::Attributes(attr)) && attr.kind
            is Directory && attr.ino == ROOT_INODE,
{
}

/// Writing chunks touches chunk records only.
pub proof fn storing_chunks_spares_other_records(
    store: StoreModel,
    file: FileModel,
    data: Seq<u8>,
    next: u64,
    key: Key,
)
    requires
        !(key.table is Chunk),
    ensures
        store_chunks(store, file, data, next).contains_key(key) == store.contains_key(key),
        store_chunks(store, file, data, next)[key] == store[key],
    decreases file.chunks.len() - next,
{
    if next < file.chunks.len() && next * CHUNK_SIZE <= data.len() && next < u64::MAX {
        storing_chunks_spares_other_records(
            store.insert(
                Key::chunk(file.chunks[next as int].id),
                RecordModel::Chunk {
                    id: file.chunks[next as int].id,
                    bytes: chunk_bytes(data, next as int),
                },
            ),
            file,
            data,
            (next + 1) as u64,
            key,
        );
    }
}

/// The root stays a directory through every operation that spares it.
pub proof fn root_stays_directory(store: StoreModel, op: OperationModel)
    requires
        root_is_directory(store),
        spares_root(store, op),
    ensures
        root_is_directory(meaning(store, op).0),
{
    let root = inode_at(store, ROOT_INODE)->Ok_0;
    if let OperationModel::Write { ino, file_id, data } = op {
        let file = file_of(file_id, data);
        storing_chunks_spares_other_records(store, file, data, 0, Key::inode(ROOT_INODE));
        storing_chunks_spares_other_records(store, file, data, 0, Key::target(root));
        storing_chunks_spares_other_records(store, file, data, 0, Key::inode(ino));
    }
}

/// Every directory that the store holds has unique names.
pub open spec fn directories_are_well_formed(store: StoreModel) -> bool {
    forall|key: Key|
        store.contains_key(key) ==> (#[trigger] store[key] matches RecordModel::Directory(dir)
            ==> dir.wf())
}

/// No operation stores a directory in which a name occurs twice: where the
/// names are unique in every directory of the store, they still are after
/// the operation.
pub proof fn directories_stay_well_formed(store: StoreModel, op: OperationModel)
    requires
        directories_are_well_formed(store),
    ensures
        directories_are_well_formed(meaning(store, op).0),
{
    let after = meaning(store, op).0;
    match op {
        OperationModel::Create { parent, name, file_id, inode_id, dir_id } => {
            let created = created_file(file_id, inode_id);
            let with_file = store.insert(Key::file(file_id), RecordModel::File(created.file));
            let with_inode = with_file.insert(
                Key::inode(inode_id),
                RecordModel::Inode(created.inode),
            );
            assert(directories_are_well_formed(with_inode));
            if let Ok(dir) = directory_at(with_inode, parent) {
                assert(with_inode.contains_key(Key::directory(dir.id)));
                assert(with_inode[Key::directory(dir.id)] == RecordModel::Directory(dir));
                add_keeps_directory_well_formed(dir.with_id(dir_id), name, inode_id);
            }
        },
        OperationModel::Write { ino, file_id, data } => {
            let file = file_of(file_id, data);
            assert forall|key: Key| after.contains_key(key) implies (#[trigger] after[key]
                matches RecordModel::Directory(dir) ==> dir.wf()) by {
                if !(key.table is Chunk) {
                    storing_chunks_spares_other_records(store, file, data, 0, key);
                } else {
                    chunk_keys_hold_chunks(store, file, data, 0, key);
                }
            }
        },
        _ => {},
    }
}

/// Writing chunks leaves under a chunk key what was there, or a chunk.
pub proof fn chunk_keys_hold_chunks(
    store: StoreModel,
    file: FileModel,
    data: Seq<u8>,
    next: u64,
    key: Key,
)
    ensures
        ({
            let after = store_chunks(store, file, data, next);
            after.contains_key(key) ==> after[key] is Chunk || (store.contains_key(key)
                && after[key] == store[key])
        }),
    decreases file.chunks.len() - next,
{
    if next < file.chunks.len() && next * CHUNK_SIZE <= data.len() && next < u64::MAX {
        chunk_keys_hold_chunks(
            store.insert(
                Key::chunk(file.chunks[next as int].id),
                RecordModel::Chunk {
                    id: file.chunks[next as int].id,
                    bytes: chunk_bytes(data, next as int),
                },
            ),
            file,
            data,
            (next + 1) as u64,
            key,
        );
    }
}

/// The operations that only read leave the store as it was.
pub proof fn reading_changes_nothing(store: StoreModel, op: OperationModel)
    requires
        !(op is Create),
        !(op is Write),
        !(op is SwapTarget),
    ensures
        meaning(store, op).0 == store,
{
}

/// Kind of the inode `id` as the store holds it.
pub open spec fn kind_at(store: StoreModel, id: InodeId) -> InodeKind {
    inode_at(store, id)->Ok_0.kind
}

/// The kinds that a listing collects are those of the entries' inodes, one
/// per entry from `at` on, in order. The collection fails exactly where one
/// of those inodes cannot be had.
pub proof fn collected_kinds_follow_entries(
    store: StoreModel,
    dir: DirectoryModel,
    at: int,
    kinds: Seq<InodeKind>,
)
    requires
        0 <= at <= dir.entries.len(),
    ensures
        collect_kinds(store, dir, at, kinds) matches Ok(all) ==> {
            &&& all.len() == kinds.len() + dir.entries.len() - at
            &&& forall|k: int| 0 <= k < kinds.len() ==> all[k] == kinds[k]
            &&& forall|k: int|
                at <= k < dir.entries.len() ==> {
                    &&& inode_at(store, (#[trigger] dir.entries[k]).inode_id) is Ok
                    &&& all[kinds.len() + k - at] == kind_at(store, dir.entries[k].inode_id)
                }
        },
        collect_kinds(store, dir, at, kinds) is Err ==> exists|k: int|
            at <= k < dir.entries.len() && inode_at(store, (#[trigger] dir.entries[k]).inode_id)
                is Err,
    decreases dir.entries.len() - at,
{
    if at < dir.entries.len() {
        match inode_at(store, dir.entries[at].inode_id) {
            Ok(inode) => {
                let grown = kinds.push(inode.kind);
                collected_kinds_follow_entries(store, dir, at + 1, grown);
                if collect_kinds(store, dir, at, kinds) is Ok {
                    let all = collect_kinds(store, dir, at, kinds)->Ok_0;
                    assert forall|k: int| 0 <= k < kinds.len() implies all[k] == kinds[k] by {
                        assert(grown[k] == kinds[k]);
                    }
                    assert(all[kinds.len() as int] == grown[kinds.len() as int]);
                    assert forall|k: int| at <= k < dir.entries.len() implies {
                        &&& inode_at(store, (#[trigger] dir.entries[k]).inode_id) is Ok
                        &&& all[kinds.len() + k - at] == kind_at(store, dir.entries[k].inode_id)
                    } by {
                        if k > at {
                            assert(all[grown.len() + k - (at + 1)] == kind_at(
                                store,
                                dir.entries[k].inode_id,
                            ));
                        }
                    }
                } else {
                    let k = choose|k: int|
                        at + 1 <= k < dir.entries.len() && inode_at(
                            store,
                            (#[trigger] dir.entries[k]).inode_id,
                        ) is Err;
                    assert(at <= k < dir.entries.len() && inode_at(store, dir.entries[k].inode_id)
                        is Err);
                }
            },
            Err(_) => {
                assert(inode_at(store, dir.entries[at].inode_id) is Err);
            },
        }
    }
}

/// A listing from the start of a directory whose entries all have their
/// inode holds `.`, `..` and then every entry once, in stored order, each
/// with the kind of its inode.
pub proof fn list_from_start_is_complete(store: StoreModel, ino: InodeId)
    ensures
        list(store, ino, 0) matches Ok(reply) ==> {
            &&& reply matches ReplyModel::Listing(listing)
            &&& directory_at(store, ino) matches Ok(dir)
            &&& listing.len() == dir.entries.len() + 2
            &&& listing[0] == ListEntryModel {
                name: "."@,
                inode_id: ino,
                kind: InodeKind::Directory,
            }
            &&& listing[1] == ListEntryModel {
                name: ".."@,
                inode_id: ino,
                kind: InodeKind::Directory,
            }
            &&& forall|k: int|
                0 <= k < dir.entries.len() ==> {
                    &&& (#[trigger] listing[k + 2]).name == dir.entries[k].name
                    &&& listing[k + 2].inode_id == dir.entries[k].inode_id
                    &&& inode_at(store, dir.entries[k].inode_id) matches Ok(inode)
                    &&& listing[k + 2].kind == inode.kind
                }
        },
{
    if list(store, ino, 0) is Ok {
        let dir = directory_at(store, ino)->Ok_0;
        collected_kinds_follow_entries(store, dir, 0, Seq::empty());
        let kinds = collect_kinds(store, dir, 0, Seq::empty())->Ok_0;
        let listing = dir.listing(ino, 0, kinds);
        assert forall|k: int| 0 <= k < dir.entries.len() implies {
            &&& (#[trigger] listing[k + 2]).name == dir.entries[k].name
            &&& listing[k + 2].inode_id == dir.entries[k].inode_id
            &&& inode_at(store, dir.entries[k].inode_id) matches Ok(inode)
            &&& listing[k + 2].kind == inode.kind
        } by {
            assert(kinds[0 + k - 0] == kind_at(store, dir.entries[k].inode_id));
        }
    }
}

/// A listing from position `offset >= 2` is the listing from the start
/// without its first `offset` elements.
pub proof fn list_from_offset_is_suffix(store: StoreModel, ino: InodeId, offset: i64)
    requires
        offset >= 2,
        list(store, ino, 0) is Ok,
    ensures
        list(store, ino, offset) matches Ok(ReplyModel::Listing(rest)) && list(store, ino, 0)
            matches Ok(ReplyModel::Listing(all)) && rest == if offset <= all.len() {
            all.skip(offset as int)
        } else {
            Seq::empty()
        },
{
    let dir = directory_at(store, ino)->Ok_0;
    let first = dir.first_listed(offset as int);
    collected_kinds_follow_entries(store, dir, 0, Seq::empty());
    collected_kinds_follow_entries(store, dir, first, Seq::empty());
    let kinds = collect_kinds(store, dir, 0, Seq::empty())->Ok_0;
    if collect_kinds(store, dir, first, Seq::empty()) is Err {
        let k = choose|k: int|
            first <= k < dir.entries.len() && inode_at(store, (#[trigger] dir.entries[k]).inode_id)
                is Err;
        assert(inode_at(store, dir.entries[k].inode_id) is Ok);
    }
    let tail = collect_kinds(store, dir, first, Seq::empty())->Ok_0;
    let all = dir.listing(ino, 0, kinds);
    let rest = dir.listing(ino, offset as int, tail);
    if offset <= all.len() {
        assert forall|k: int| 0 <= k < rest.len() implies rest[k] == all.skip(offset as int)[k] by {
            let entry = dir.entries[first + k];
            assert(tail[0 + (first + k) - first] == kind_at(store, entry.inode_id));
            assert(kinds[0 + (first + k) - 0] == kind_at(store, entry.inode_id));
        }
        assert(rest =~= all.skip(offset as int));
    } else {
        assert(rest =~= Seq::empty());
    }
}

/// A file that was created is found under its name: a lookup in the parent
/// returns the attributes of the new inode, those of an empty file.
pub proof fn created_file_is_found(
    store: StoreModel,
    parent: InodeId,
    name: Seq<char>,
    file_id: DataId,
    inode_id: InodeId,
    dir_id: DataId,
)
    requires
        create(store, parent, name, file_id, inode_id, dir_id).1 is Ok,
    ensures
        ({
            let (after, outcome) = create(store, parent, name, file_id, inode_id, dir_id);
            let created = created_file(file_id, inode_id);
            &&& outcome == Ok::<ReplyModel, FsError>(ReplyModel::Created(created))
            &&& created.file.size == 0
            &&& created.inode == Inode { id: inode_id, target: file_id, kind: InodeKind::File }
            &&& lookup(after, parent, name) == Ok::<ReplyModel, FsError>(
                ReplyModel::Attributes(created.attributes),
            )
            &&& directory_at(after, parent) matches Ok(dir) && dir.find(name) == Some(inode_id)
        }),
{
    let created = created_file(file_id, inode_id);
    let with_file = store.insert(Key::file(file_id), RecordModel::File(created.file));
    let with_inode = with_file.insert(Key::inode(inode_id), RecordModel::Inode(created.inode));
    let dir = directory_at(with_inode, parent)->Ok_0;
    let grown = dir.with_id(dir_id).with_entry(name, inode_id);
    lemma_first_named_at(grown.entries, name, dir.entries.len() as int);
}

/// The store holds the root as it is set up before first use: the root
/// inode, of kind directory, and behind it a directory without entries.
pub open spec fn root_is_empty(store: StoreModel) -> bool {
    directory_at(store, ROOT_INODE) matches Ok(dir) && dir.entries.len() == 0
}

/// The first file in an empty root. Its creation succeeds and returns an
/// empty file behind a new inode of kind file; a lookup of the name then
/// returns the attributes of that inode; and the listing of the root from the
/// start holds `.`, `..` and the name, in that order, the name with the new
/// inode and the kind file.
pub proof fn first_file_in_an_empty_root(
    store: StoreModel,
    name: Seq<char>,
    file_id: DataId,
    inode_id: InodeId,
    dir_id: DataId,
)
    requires
        root_is_empty(store),
        inode_id != ROOT_INODE,
    ensures
        ({
            let (after, outcome) = create(store, ROOT_INODE, name, file_id, inode_id, dir_id);
            let created = created_file(file_id, inode_id);
            &&& outcome == Ok::<ReplyModel, FsError>(ReplyModel::Created(created))
            &&& created.file == empty_file(file_id)
            &&& created.file.size == 0
            &&& created.file.chunks.len() == 0
            &&& created.inode == Inode { id: inode_id, target: file_id, kind: InodeKind::File }
            &&& lookup(after, ROOT_INODE, name) == Ok::<ReplyModel, FsError>(
                ReplyModel::Attributes(created.attributes),
            )
            &&& created.attributes.ino == inode_id
            &&& created.attributes.kind is File
            &&& created.attributes.size == 0
            &&& list(after, ROOT_INODE, 0) == Ok::<ReplyModel, FsError>(
                ReplyModel::Listing(
                    seq![
                        ListEntryModel {
                            name: "."@,
                            inode_id: ROOT_INODE,
                            kind: InodeKind::Directory,
                        },
                        ListEntryModel {
                            name: ".."@,
                            inode_id: ROOT_INODE,
                            kind: InodeKind::Directory,
                        },
                        ListEntryModel { name, inode_id, kind: InodeKind::File },
                    ],
                ),
            )
        }),
{
    let dir = directory_at(store, ROOT_INODE)->Ok_0;
    assert(!dir.has_name(name));
    let (after, outcome) = create(store, ROOT_INODE, name, file_id, inode_id, dir_id);
    assert(outcome is Ok);
    created_file_is_found(store, ROOT_INODE, name, file_id, inode_id, dir_id);
    let grown = directory_at(after, ROOT_INODE)->Ok_0;
    assert(grown.entries =~= seq![EntryModel { name, inode_id }]);
    reveal_with_fuel(collect_kinds, 3);
    let kinds = collect_kinds(after, grown, 0, Seq::empty())->Ok_0;
    assert(kinds =~= seq![InodeKind::File]);
    assert(grown.listing(ROOT_INODE, 0, kinds) =~= seq![
        ListEntryModel { name: "."@, inode_id: ROOT_INODE, kind: InodeKind::Directory },
        ListEntryModel { name: ".."@, inode_id: ROOT_INODE, kind: InodeKind::Directory },
        ListEntryModel { name, inode_id, kind: InodeKind::File },
    ]);
}

/// Runs an operation from `step` against a truthful store for `requests`
/// requests and stops there: the store and where the operation stands.
pub open spec fn run_paused(store: StoreModel, step: StepModel, requests: nat) -> (
    StoreModel,
    StepModel,
)
    decreases requests,
{
    match step {
        StepModel::Finished(outcome) => (store, step),
        StepModel::Continue(task, request) => if requests == 0 {
            (store, step)
        } else {
            let (next, response) = serve_model(store, request);
            run_paused(next, advance_model(task, response), (requests - 1) as nat)
        },
    }
}

/// Two creations in one directory can lose an entry. The first is stopped
/// after `pause` requests, when it has read the directory and has not yet
/// repointed the parent; the second then runs to its end; the first goes on.
/// Both succeed. The directory is left as the first made it, the directory
/// that both read with the first name added: the entry of the second is
/// gone, though its inode and its file are stored.
pub proof fn concurrent_creates_can_lose_an_update(
    store: StoreModel,
    parent: InodeId,
    first_name: Seq<char>,
    first_file: DataId,
    first_inode: InodeId,
    first_dir: DataId,
    second_name: Seq<char>,
    second_file: DataId,
    second_inode: InodeId,
    second_dir: DataId,
    pause: nat,
)
    requires
        directory_at(store, parent) matches Ok(dir) && !dir.has_name(first_name) && !dir.has_name(
            second_name,
        ) && dir.id != first_dir,
        first_name != second_name,
        first_inode != parent,
        second_inode != parent,
        first_dir != second_dir,
        4 <= pause <= 6,
    ensures
        ({
            let first = OperationModel::Create {
                parent,
                name: first_name,
                file_id: first_file,
                inode_id: first_inode,
                dir_id: first_dir,
            };
            let second = OperationModel::Create {
                parent,
                name: second_name,
                file_id: second_file,
                inode_id: second_inode,
                dir_id: second_dir,
            };
            let (read, paused) = run_paused(store, begin(first), pause);
            let (between, second_outcome) = run(read, begin(second), 7);
            let (after, first_outcome) = run(between, paused, (7 - pause) as nat);
            let made = created_file(second_file, second_inode);
            &&& second_outcome == Some(Ok::<ReplyModel, FsError>(ReplyModel::Created(made)))
            &&& directory_at(between, parent) matches Ok(seen) && seen.has_name(second_name)
            &&& first_outcome == Some(
                Ok::<ReplyModel, FsError>(
                    ReplyModel::Created(created_file(first_file, first_inode)),
                ),
            )
            &&& directory_at(store, parent) matches Ok(dir) && directory_at(after, parent) == Ok::<
                DirectoryModel,
                FsError,
            >(dir.with_id(first_dir).with_entry(first_name, first_inode))
            &&& directory_at(after, parent) matches Ok(left) && left.has_name(first_name)
                && !left.has_name(second_name)
            &&& inode_at(after, second_inode) == Ok::<Inode, FsError>(made.inode)
            &&& after.contains_key(Key::file(second_file)) && after[Key::file(second_file)]
                == RecordModel::File(made.file)
        }),
{
    let dir = directory_at(store, parent)->Ok_0;
    let first = OperationModel::Create {
        parent,
        name: first_name,
        file_id: first_file,
        inode_id: first_inode,
        dir_id: first_dir,
    };
    let second = OperationModel::Create {
        parent,
        name: second_name,
        file_id: second_file,
        inode_id: second_inode,
        dir_id: second_dir,
    };
    let first_created = created_file(first_file, first_inode);
    let reply = ReplyModel::Created(first_created);
    let swapped = Inode { id: parent, target: first_dir, kind: InodeKind::Directory };
    let with_file = store.insert(Key::file(first_file), RecordModel::File(first_created.file));
    let with_inode = with_file.insert(
        Key::inode(first_inode),
        RecordModel::Inode(first_created.inode),
    );
    let first_grown = dir.with_id(first_dir).with_entry(first_name, first_inode);
    let with_copy = with_inode.insert(
        Key::directory(first_dir),
        RecordModel::Directory(first_grown),
    );
    let storing = StepModel::Continue(
        TaskModel::StoreDirectory { parent, dir_id: first_dir, created: first_created },
        RequestModel::Store(RecordModel::Directory(first_grown)),
    );
    let swapping = StepModel::Continue(
        TaskModel::Swap {
            id: parent,
            target: first_dir,
            kind: InodeKind::Directory,
            ending: Some(reply),
        },
        RequestModel::Load(Key::inode(parent)),
    );
    let committing = StepModel::Continue(
        TaskModel::Commit { reply },
        RequestModel::Store(RecordModel::Inode(swapped)),
    );
    assert(directory_at(with_inode, parent) == Ok::<DirectoryModel, FsError>(dir));
    assert(directory_at(with_copy, parent) == Ok::<DirectoryModel, FsError>(dir));
    reveal_with_fuel(run_paused, 7);
    let read = if pause == 4 {
        with_inode
    } else {
        with_copy
    };
    let paused = if pause == 4 {
        storing
    } else if pause == 5 {
        swapping
    } else {
        committing
    };
    assert(run_paused(store, begin(first), pause) == (read, paused));
    run_computes_meaning(read, second, 7);
    let between = meaning(read, second).0;
    let second_grown = dir.with_id(second_dir).with_entry(second_name, second_inode);
    assert(second_grown.entries[dir.entries.len() as int].name == second_name);
    assert(directory_at(between, parent) == Ok::<DirectoryModel, FsError>(second_grown));
    let copied = between.insert(Key::directory(first_dir), RecordModel::Directory(first_grown));
    lemma_run_swap(copied, parent, first_dir, InodeKind::Directory, Some(reply), 2);
    let after = copied.insert(Key::inode(parent), RecordModel::Inode(swapped));
    assert(run(between, paused, (7 - pause) as nat) == (after, Some(Ok::<ReplyModel, FsError>(reply))))
        by {
        reveal_with_fuel(run, 3);
        if pause >= 5 {
            assert(copied =~= between);
        }
    }
    assert(directory_at(after, parent) == Ok::<DirectoryModel, FsError>(first_grown));
    assert(first_grown.entries[dir.entries.len() as int].name == first_name);
    assert forall|i: int| 0 <= i < first_grown.entries.len() implies first_grown.entries[i].name
        != second_name by {
        if i < dir.entries.len() {
            assert(first_grown.entries[i] == dir.entries[i]);
        }
    }
}

/// How far into `[start, end)` the chunks before `next` reach.
pub open spec fn reached(next: int, start: int, end: int) -> int {
    if next * CHUNK_SIZE <= start {
        start
    } else if next * CHUNK_SIZE >= end {
        end
    } else {
        next * CHUNK_SIZE
    }
}

/// Where the store holds every chunk of a file, gathering the chunks that
/// cover a byte range reassembles exactly that range of the content.
pub proof fn gather_reassembles_the_range(
    store: StoreModel,
    file: FileModel,
    data: Seq<u8>,
    next: u64,
    start: u64,
    end: u64,
    out: Seq<u8>,
)
    requires
        file.wf(),
        file.size == data.len(),
        start <= end <= data.len(),
        forall|i: int|
            0 <= i < file.chunks.len() ==> #[trigger] chunk_at(store, file, i as u64) == Ok::<
                Seq<u8>,
                FsError,
            >(chunk_bytes(data, i)),
        first_chunk(start as nat) <= next <= end_chunk(start as nat, end as nat),
        out == data.subrange(start as int, reached(next as int, start as int, end as int)),
    ensures
        gather(store, file, next, end_chunk(start as nat, end as nat) as u64, start, end, out)
            == Ok::<Seq<u8>, FsError>(data.subrange(start as int, end as int)),
    decreases end_chunk(start as nat, end as nat) - next,
{
    let last = end_chunk(start as nat, end as nat);
    if next < last {
        let base = next * CHUNK_SIZE;
        assert(base < end);
        assert(next < file.chunks.len());
        assert(chunk_at(store, file, (next as int) as u64) == Ok::<Seq<u8>, FsError>(
            chunk_bytes(data, next as int),
        ));
        let bytes = chunk_bytes(data, next as int);
        let piece = piece_of(bytes, next as int, start as int, end as int);
        let upto = reached(next + 1, start as int, end as int);
        assert(out + piece =~= data.subrange(start as int, upto));
        gather_reassembles_the_range(store, file, data, (next + 1) as u64, start, end, out + piece);
    }
}

/// The record made for a content is laid out as its size asks.
pub proof fn file_of_content_is_well_formed(id: DataId, data: Seq<u8>)
    requires
        data.len() <= u64::MAX,
    ensures
        file_of(id, data).wf(),
        file_of(id, data).holds(data),
        file_of(id, data).id == id,
{
    let file = file_of(id, data);
    assert forall|i: int| 0 <= i < file.chunks.len() implies {
        &&& (#[trigger] file.chunks[i]).file_id == file.id
        &&& file.chunks[i].idx == i
        &&& file.chunks[i].size == chunk_len(file.size as nat, i)
        &&& file.chunks[i].describes(id, i as u64, chunk_bytes(data, i))
    } by {
        assert(chunk_bytes(data, i).len() == chunk_len(data.len(), i));
    }
}

/// Routing identity of the chunk at position `at` of file `id`.
pub open spec fn route(id: DataId, at: int) -> DataId {
    chunk_id(id, at as u64)
}

/// No two chunks of a file of `size` bytes share a routing identity.
pub open spec fn routes_are_distinct(id: DataId, size: nat) -> bool {
    forall|i: int, j: int|
        0 <= i < j < chunk_count(size) ==> #[trigger] route(id, i) != #[trigger] route(id, j)
}

/// After the chunks of a content were written, the store holds each of them
/// under its routing identity, provided no two chunks of the file share one.
pub proof fn stored_chunks_are_held(
    store: StoreModel,
    id: DataId,
    data: Seq<u8>,
    next: u64,
    at: int,
)
    requires
        data.len() <= u64::MAX,
        routes_are_distinct(id, data.len()),
        0 <= at < chunk_count(data.len()),
        at >= next || (store.contains_key(Key::chunk(chunk_id(id, at as u64))) && store[Key::chunk(
            chunk_id(id, at as u64),
        )] == RecordModel::Chunk { id: chunk_id(id, at as u64), bytes: chunk_bytes(data, at) }),
    ensures
        ({
            let after = store_chunks(store, file_of(id, data), data, next);
            let key = Key::chunk(chunk_id(id, at as u64));
            after.contains_key(key) && after[key] == RecordModel::Chunk {
                id: chunk_id(id, at as u64),
                bytes: chunk_bytes(data, at),
            }
        }),
    decreases chunk_count(data.len()) - next,
{
    let file = file_of(id, data);
    if next < file.chunks.len() {
        assert(next * CHUNK_SIZE <= data.len());
        let stored = store.insert(
            Key::chunk(file.chunks[next as int].id),
            RecordModel::Chunk {
                id: file.chunks[next as int].id,
                bytes: chunk_bytes(data, next as int),
            },
        );
        if at != next {
            if at < next {
                assert(route(id, at) != route(id, next as int));
            } else {
                assert(route(id, next as int) != route(id, at));
            }
        }
        stored_chunks_are_held(stored, id, data, (next + 1) as u64, at);
    }
}

/// What was written is read back: after a write of `data` the bytes of any
/// range of the file are those of `data`, provided no two chunks of the file
/// share a routing identity.
pub proof fn read_returns_what_was_written(
    store: StoreModel,
    ino: InodeId,
    file_id: DataId,
    data: Seq<u8>,
    offset: u64,
    length: u64,
)
    requires
        data.len() <= u64::MAX,
        crate::semantics::write(store, ino, file_id, data).1 is Ok,
        routes_are_distinct(file_id, data.len()),
    ensures
        crate::semantics::write(store, ino, file_id, data).1 == Ok::<ReplyModel, FsError>(
            ReplyModel::Written(file_of(file_id, data)),
        ),
        inode_at(crate::semantics::write(store, ino, file_id, data).0, ino) == Ok::<Inode, FsError>(
            Inode { id: ino, target: file_id, kind: InodeKind::File },
        ),
        read(crate::semantics::write(store, ino, file_id, data).0, ino, offset, length) == Ok::<
            ReplyModel,
            FsError,
        >(
            ReplyModel::Data(
                data.subrange(
                    range_start(data.len(), offset as nat) as int,
                    range_end(data.len(), offset as nat, length as nat) as int,
                ),
            ),
        ),
{
    let file = file_of(file_id, data);
    let after = crate::semantics::write(store, ino, file_id, data).0;
    let chunked = store_chunks(store, file, data, 0);
    file_of_content_is_well_formed(file_id, data);
    storing_chunks_spares_other_records(store, file, data, 0, Key::inode(ino));
    assert(file_at(after, ino) == Ok::<FileModel, FsError>(file));
    assert forall|i: int| 0 <= i < file.chunks.len() implies #[trigger] chunk_at(
        after,
        file,
        i as u64,
    ) == Ok::<Seq<u8>, FsError>(chunk_bytes(data, i)) by {
        stored_chunks_are_held(store, file_id, data, 0, i);
        assert(chunk_bytes(data, i).len() == chunk_len(data.len(), i));
        assert(file.chunks[i].id == chunk_id(file_id, i as u64));
    }
    let start = range_start(data.len(), offset as nat);
    let end = range_end(data.len(), offset as nat, length as nat);
    assert(data.subrange(start as int, start as int) =~= Seq::<u8>::empty());
    gather_reassembles_the_range(
        after,
        file,
        data,
        first_chunk(start) as u64,
        start as u64,
        end as u64,
        Seq::empty(),
    );
}

} // verus!

//! What the operations mean on a store that answers every request
//! truthfully, and the proof that the tasks of the engine compute it.

use vstd::prelude::*;
use crate::directory::DirectoryModel;
use crate::engine::{
    advance_model, after_record, begin, created_file, is_chunk, is_target, list_next, read_next,
    record_attributes, write_next,
};
use crate::error::FsError;
use crate::file::{
    chunk_bytes, end_chunk, file_of, first_chunk, piece_of, range_end, range_start, FileModel,
    CHUNK_SIZE,
};
use crate::inode::{DataId, Inode, InodeId, InodeKind};
use crate::protocol::{
    CreatedModel, GoalModel, OperationModel, OutcomeModel, ReplyModel, RequestModel, ResponseModel,
    StepModel, TaskModel,
};
use crate::record::{Key, RecordModel};

verus! {

/// The contents of a store: the record under each key that holds one.
pub type StoreModel = Map<Key, RecordModel>;

/// How a truthful store answers a request, and what it holds afterwards.
pub open spec fn serve_model(store: StoreModel, request: RequestModel) -> (
    StoreModel,
    ResponseModel,
) {
    match request {
        RequestModel::Load(key) => (
            store,
            if store.contains_key(key) {
                ResponseModel::Found(store[key])
            } else {
                ResponseModel::Missing
            },
        ),
        RequestModel::Store(record) => (store.insert(record.key(), record), ResponseModel::Stored),
    }
}

/// Runs an operation from `step` against a truthful store that nobody else
/// writes to, for at most `fuel` requests: the store afterwards and the
/// outcome, if the operation ended.
pub open spec fn run(store: StoreModel, step: StepModel, fuel: nat) -> (
    StoreModel,
    Option<OutcomeModel>,
)
    decreases fuel,
{
    match step {
        StepModel::Finished(outcome) => (store, Some(outcome)),
        StepModel::Continue(task, request) => if fuel == 0 {
            (store, None)
        } else {
            let (next, response) = serve_model(store, request);
            run(next, advance_model(task, response), (fuel - 1) as nat)
        },
    }
}

/// The inode `ino` as the store holds it.
pub open spec fn inode_at(store: StoreModel, ino: InodeId) -> Result<Inode, FsError> {
    if !store.contains_key(Key::inode(ino)) {
        Err(FsError::NotFound)
    } else {
        match store[Key::inode(ino)] {
            RecordModel::Inode(inode) => if inode.id == ino {
                Ok(inode)
            } else {
                Err(FsError::SerializationError)
            },
            _ => Err(FsError::SerializationError),
        }
    }
}

/// The file or directory that `inode` points at.
pub open spec fn target_of(store: StoreModel, inode: Inode) -> Result<RecordModel, FsError> {
    if inode.kind is Symlink {
        Err(FsError::Unimplemented)
    } else if !store.contains_key(Key::target(inode)) {
        Err(FsError::NotFound)
    } else if is_target(inode, store[Key::target(inode)]) {
        Ok(store[Key::target(inode)])
    } else {
        Err(FsError::SerializationError)
    }
}

/// The directory record `id` as the store holds it.
pub open spec fn directory_record(store: StoreModel, id: DataId) -> Result<
    DirectoryModel,
    FsError,
> {
    if !store.contains_key(Key::directory(id)) {
        Err(FsError::NotFound)
    } else {
        match store[Key::directory(id)] {
            RecordModel::Directory(dir) => if dir.id == id {
                Ok(dir)
            } else {
                Err(FsError::SerializationError)
            },
            _ => Err(FsError::SerializationError),
        }
    }
}

/// The file record `id` as the store holds it.
pub open spec fn file_record(store: StoreModel, id: DataId) -> Result<FileModel, FsError> {
    if !store.contains_key(Key::file(id)) {
        Err(FsError::NotFound)
    } else {
        match store[Key::file(id)] {
            RecordModel::File(file) => if file.id == id {
                Ok(file)
            } else {
                Err(FsError::SerializationError)
            },
            _ => Err(FsError::SerializationError),
        }
    }
}

/// The inode `ino` and the record it points at.
pub open spec fn resolve(store: StoreModel, ino: InodeId) -> Result<(Inode, RecordModel), FsError> {
    match inode_at(store, ino) {
        Err(e) => Err(e),
        Ok(inode) => match target_of(store, inode) {
            Err(e) => Err(e),
            Ok(record) => Ok((inode, record)),
        },
    }
}

/// The directory behind `ino`.
pub open spec fn directory_at(store: StoreModel, ino: InodeId) -> Result<DirectoryModel, FsError> {
    match resolve(store, ino) {
        Err(e) => Err(e),
        Ok((inode, RecordModel::Directory(dir))) => Ok(dir),
        Ok(_) => Err(FsError::NotADirectory),
    }
}

/// The file behind `ino`.
pub open spec fn file_at(store: StoreModel, ino: InodeId) -> Result<FileModel, FsError> {
    match resolve(store, ino) {
        Err(e) => Err(e),
        Ok((inode, RecordModel::File(file))) => if file.wf() {
            Ok(file)
        } else {
            Err(FsError::SerializationError)
        },
        Ok(_) => Err(FsError::WrongKind),
    }
}

/// Attributes of the object behind `ino`.
pub open spec fn attributes(store: StoreModel, ino: InodeId) -> OutcomeModel {
    match resolve(store, ino) {
        Err(e) => Err(e),
        Ok((inode, record)) => Ok(ReplyModel::Attributes(record_attributes(ino, record))),
    }
}

/// A handle to the file behind `ino`.
pub open spec fn open(store: StoreModel, ino: InodeId) -> OutcomeModel {
    match resolve(store, ino) {
        Err(e) => Err(e),
        Ok((inode, RecordModel::File(file))) => Ok(ReplyModel::Opened(0)),
        Ok(_) => Err(FsError::WrongKind),
    }
}

/// Attributes of the entry `name` of the directory behind `parent`.
pub open spec fn lookup(store: StoreModel, parent: InodeId, name: Seq<char>) -> OutcomeModel {
    match directory_at(store, parent) {
        Err(e) => Err(e),
        Ok(dir) => match dir.find(name) {
            None => Err(FsError::NotFound),
            Some(child) => attributes(store, child),
        },
    }
}

/// The kinds of the entries of `dir` from index `at` on, after `kinds`: each
/// is the kind of the entry's inode as the store holds it.
pub open spec fn collect_kinds(
    store: StoreModel,
    dir: DirectoryModel,
    at: int,
    kinds: Seq<InodeKind>,
) -> Result<Seq<InodeKind>, FsError>
    decreases dir.entries.len() - at,
{
    if at < 0 || at >= dir.entries.len() {
        Ok(kinds)
    } else {
        match inode_at(store, dir.entries[at].inode_id) {
            Err(e) => Err(e),
            Ok(inode) => collect_kinds(store, dir, at + 1, kinds.push(inode.kind)),
        }
    }
}

/// Listing of the directory behind `ino` from position `offset`.
pub open spec fn list(store: StoreModel, ino: InodeId, offset: i64) -> OutcomeModel {
    match directory_at(store, ino) {
        Err(e) => Err(e),
        Ok(dir) => match collect_kinds(
            store,
            dir,
            dir.first_listed(offset as int),
            Seq::empty(),
        ) {
            Err(e) => Err(e),
            Ok(kinds) => Ok(ReplyModel::Listing(dir.listing(ino, offset as int, kinds))),
        },
    }
}

/// The bytes of chunk `next` of `file` as the store holds them.
pub open spec fn chunk_at(store: StoreModel, file: FileModel, next: u64) -> Result<
    Seq<u8>,
    FsError,
> {
    let key = Key::chunk(file.chunks[next as int].id);
    if !store.contains_key(key) {
        Err(FsError::NotFound)
    } else {
        match store[key] {
            RecordModel::Chunk { id, bytes } => if is_chunk(file, next, id, bytes) {
                Ok(bytes)
            } else {
                Err(FsError::SerializationError)
            },
            _ => Err(FsError::SerializationError),
        }
    }
}

/// The bytes of `[start, end)` that the chunks from `next` up to `last`
/// hold, after `out`.
pub open spec fn gather(
    store: StoreModel,
    file: FileModel,
    next: u64,
    last: u64,
    start: u64,
    end: u64,
    out: Seq<u8>,
) -> Result<Seq<u8>, FsError>
    decreases last - next,
{
    if next >= last {
        Ok(out)
    } else if next >= file.chunks.len() || next * CHUNK_SIZE > u64::MAX {
        Err(FsError::SerializationError)
    } else {
        match chunk_at(store, file, next) {
            Err(e) => Err(e),
            Ok(bytes) => gather(
                store,
                file,
                (next + 1) as u64,
                last,
                start,
                end,
                out + piece_of(bytes, next as int, start as int, end as int),
            ),
        }
    }
}

/// The bytes `[from, from + length)` of the file behind `ino`, held to the
/// size of the file.
pub open spec fn read(store: StoreModel, ino: InodeId, from: u64, length: u64) -> OutcomeModel {
    match file_at(store, ino) {
        Err(e) => Err(e),
        Ok(file) => {
            let start = range_start(file.size as nat, from as nat);
            let end = range_end(file.size as nat, from as nat, length as nat);
            match gather(
                store,
                file,
                first_chunk(start) as u64,
                end_chunk(start, end) as u64,
                start as u64,
                end as u64,
                Seq::empty(),
            ) {
                Err(e) => Err(e),
                Ok(bytes) => Ok(ReplyModel::Data(bytes)),
            }
        },
    }
}

/// Repoints the inode `id`: the inode must be there, and is overwritten
/// whatever it pointed at.
pub open spec fn swap_target(store: StoreModel, id: InodeId, target: DataId, kind: InodeKind) -> (
    StoreModel,
    Result<Inode, FsError>,
) {
    match inode_at(store, id) {
        Err(e) => (store, Err(e)),
        Ok(inode) => {
            let swapped = Inode { id, target, kind };
            (store.insert(Key::inode(id), RecordModel::Inode(swapped)), Ok(swapped))
        },
    }
}

/// The directory under which a name is to be linked: the inode `parent`
/// must be of kind directory, which is told from the inode alone, before
/// its record is looked for.
pub open spec fn parent_directory(store: StoreModel, parent: InodeId) -> Result<
    DirectoryModel,
    FsError,
> {
    match inode_at(store, parent) {
        Err(e) => Err(e),
        Ok(inode) => if inode.kind is Directory {
            directory_at(store, parent)
        } else {
            Err(FsError::NotADirectory)
        },
    }
}

/// Links `name` to the inode `child` in the directory behind `parent`: the
/// directory is copied under `dir_id` with the entry added, and the inode
/// `parent` is repointed at the copy. The two writes are separate. A parent
/// of another kind is refused before anything is written.
pub open spec fn link(
    store: StoreModel,
    parent: InodeId,
    name: Seq<char>,
    child: InodeId,
    dir_id: DataId,
) -> (StoreModel, Result<(), FsError>) {
    match parent_directory(store, parent) {
        Err(e) => (store, Err(e)),
        Ok(dir) => match dir.with_id(dir_id).add(name, child) {
            Err(e) => (store, Err(e)),
            Ok(grown) => {
                let copied = store.insert(Key::directory(dir_id), RecordModel::Directory(grown));
                match swap_target(copied, parent, dir_id, InodeKind::Directory) {
                    (swapped, Err(e)) => (swapped, Err(e)),
                    (swapped, Ok(_)) => (swapped, Ok(())),
                }
            },
        },
    }
}

/// Creates the empty file `name` in the directory behind `parent`: the file
/// record and its inode are written first, then the name is linked.
pub open spec fn create(
    store: StoreModel,
    parent: InodeId,
    name: Seq<char>,
    file_id: DataId,
    inode_id: InodeId,
    dir_id: DataId,
) -> (StoreModel, OutcomeModel) {
    let created = created_file(file_id, inode_id);
    let with_file = store.insert(Key::file(file_id), RecordModel::File(created.file));
    let with_inode = with_file.insert(Key::inode(inode_id), RecordModel::Inode(created.inode));
    match link(with_inode, parent, name, inode_id, dir_id) {
        (linked, Err(e)) => (linked, Err(e)),
        (linked, Ok(_)) => (linked, Ok(ReplyModel::Created(created))),
    }
}

/// The store after the chunks of `data` from `next` on were written, each
/// under the routing identity that `file` gives it.
pub open spec fn store_chunks(store: StoreModel, file: FileModel, data: Seq<u8>, next: u64)
    -> StoreModel
    decreases file.chunks.len() - next,
{
    if next < file.chunks.len() && next * CHUNK_SIZE <= data.len() && next < u64::MAX {
        store_chunks(
            store.insert(
                Key::chunk(file.chunks[next as int].id),
                RecordModel::Chunk {
                    id: file.chunks[next as int].id,
                    bytes: chunk_bytes(data, next as int),
                },
            ),
            file,
            data,
            (next + 1) as u64,
        )
    } else if next < file.chunks.len() && next * CHUNK_SIZE <= data.len() {
        store.insert(
            Key::chunk(file.chunks[next as int].id),
            RecordModel::Chunk {
                id: file.chunks[next as int].id,
                bytes: chunk_bytes(data, next as int),
            },
        )
    } else {
        store
    }
}

/// Replaces the content of the file behind `ino` by `data`: the chunks are
/// written, then the record of the new file under `file_id`, then the inode
/// is repointed at it. The writes are separate.
pub open spec fn write(store: StoreModel, ino: InodeId, file_id: DataId, data: Seq<u8>) -> (
    StoreModel,
    OutcomeModel,
) {
    match resolve(store, ino) {
        Err(e) => (store, Err(e)),
        Ok((inode, RecordModel::File(held))) => {
            let file = file_of(file_id, data);
            let chunked = store_chunks(store, file, data, 0);
            let recorded = chunked.insert(Key::file(file_id), RecordModel::File(file));
            match swap_target(recorded, ino, file_id, InodeKind::File) {
                (swapped, Err(e)) => (swapped, Err(e)),
                (swapped, Ok(_)) => (swapped, Ok(ReplyModel::Written(file))),
            }
        },
        Ok(_) => (store, Err(FsError::WrongKind)),
    }
}

/// What an operation does to a store and what it returns.
pub open spec fn meaning(store: StoreModel, op: OperationModel) -> (StoreModel, OutcomeModel) {
    match op {
        OperationModel::Attributes { ino } => (store, attributes(store, ino)),
        OperationModel::Lookup { parent, name } => (store, lookup(store, parent, name)),
        OperationModel::List { ino, offset } => (store, list(store, ino, offset)),
        OperationModel::Open { ino } => (store, open(store, ino)),
        OperationModel::Read { ino, from, length } => (store, read(store, ino, from, length)),
        OperationModel::Create { parent, name, file_id, inode_id, dir_id } => create(
            store,
            parent,
            name,
            file_id,
            inode_id,
            dir_id,
        ),
        OperationModel::Write { ino, file_id, data } => write(store, ino, file_id, data),
        OperationModel::SwapTarget { id, target, kind } => match swap_target(
            store,
            id,
            target,
            kind,
        ) {
            (swapped, Err(e)) => (swapped, Err(e)),
            (swapped, Ok(inode)) => (swapped, Ok(ReplyModel::Swapped(inode))),
        },
    }
}

/// Number of requests within which an operation ends on a truthful store.
pub open spec fn budget(store: StoreModel, op: OperationModel) -> nat {
    match op {
        OperationModel::Lookup { parent, name } => 4,
        OperationModel::List { ino, offset } => 2 + match directory_at(store, ino) {
            Ok(dir) => dir.entries.len(),
            Err(_) => 0,
        },
        OperationModel::Read { ino, from, length } => 2 + match file_at(store, ino) {
            Ok(file) => file.chunks.len(),
            Err(_) => 0,
        },
        OperationModel::Create { parent, name, file_id, inode_id, dir_id } => 7,
        OperationModel::Write { ino, file_id, data } => 5 + file_of(file_id, data).chunks.len(),
        _ => 2,
    }
}

/// A resolution takes two requests and hands the inode and its record to
/// the goal, or ends with the error of the first request that found nothing.
pub proof fn lemma_run_resolve(store: StoreModel, ino: InodeId, goal: GoalModel, fuel: nat)
    requires
        fuel >= 2,
        !(goal is Link),
    ensures
        run(
            store,
            StepModel::Continue(
                TaskModel::Resolve { ino, goal },
                RequestModel::Load(Key::inode(ino)),
            ),
            fuel,
        ) == match resolve(store, ino) {
            Err(e) => (store, Some(Err::<ReplyModel, FsError>(e))),
            Ok((inode, record)) => run(
                store,
                after_record(inode, record, goal),
                (fuel - 2) as nat,
            ),
        },
        resolve(store, ino) matches Ok((inode, record)) ==> inode.id == ino && is_target(
            inode,
            record,
        ),
{
    reveal_with_fuel(run, 3);
}

/// A listing asks for one inode per remaining entry and ends with the
/// listing over the kinds it collected.
pub proof fn lemma_run_listing(
    store: StoreModel,
    ino: InodeId,
    dir: DirectoryModel,
    offset: i64,
    kinds: Seq<InodeKind>,
    fuel: nat,
)
    requires
        fuel + dir.first_listed(offset as int) + kinds.len() >= dir.entries.len(),
    ensures
        run(store, list_next(ino, dir, offset, kinds), fuel) == (
            store,
            Some(
                match collect_kinds(
                    store,
                    dir,
                    dir.first_listed(offset as int) + kinds.len(),
                    kinds,
                ) {
                    Err(e) => Err::<ReplyModel, FsError>(e),
                    Ok(all) => Ok(ReplyModel::Listing(dir.listing(ino, offset as int, all))),
                },
            ),
        ),
    decreases dir.entries.len() - (dir.first_listed(offset as int) + kinds.len()),
{
    reveal_with_fuel(run, 2);
    let at = dir.first_listed(offset as int) + kinds.len();
    if at < dir.entries.len() {
        match inode_at(store, dir.entries[at].inode_id) {
            Ok(inode) => {
                lemma_run_listing(store, ino, dir, offset, kinds.push(inode.kind), (fuel - 1) as nat);
            },
            Err(_) => {},
        }
    }
}

/// A read asks for one chunk after the other and ends with the bytes it
/// gathered.
pub proof fn lemma_run_gather(
    store: StoreModel,
    file: FileModel,
    next: u64,
    last: u64,
    start: u64,
    end: u64,
    out: Seq<u8>,
    fuel: nat,
)
    requires
        fuel + next >= last || fuel + next >= file.chunks.len(),
    ensures
        run(store, read_next(file, next, last, start, end, out), fuel) == (
            store,
            Some(
                match gather(store, file, next, last, start, end, out) {
                    Err(e) => Err::<ReplyModel, FsError>(e),
                    Ok(bytes) => Ok(ReplyModel::Data(bytes)),
                },
            ),
        ),
    decreases last - next,
{
    reveal_with_fuel(run, 2);
    if next < last && next < file.chunks.len() && next * CHUNK_SIZE <= u64::MAX {
        match chunk_at(store, file, next) {
            Ok(bytes) => {
                lemma_run_gather(
                    store,
                    file,
                    (next + 1) as u64,
                    last,
                    start,
                    end,
                    out + piece_of(bytes, next as int, start as int, end as int),
                    (fuel - 1) as nat,
                );
            },
            Err(_) => {},
        }
    }
}

/// Repointing an inode takes two requests: it reads the inode and writes it
/// back with the new target.
pub proof fn lemma_run_swap(
    store: StoreModel,
    id: InodeId,
    target: DataId,
    kind: InodeKind,
    ending: Option<ReplyModel>,
    fuel: nat,
)
    requires
        fuel >= 2,
    ensures
        run(
            store,
            StepModel::Continue(
                TaskModel::Swap { id, target, kind, ending },
                RequestModel::Load(Key::inode(id)),
            ),
            fuel,
        ) == match swap_target(store, id, target, kind) {
            (swapped, Err(e)) => (swapped, Some(Err::<ReplyModel, FsError>(e))),
            (swapped, Ok(inode)) => (
                swapped,
                Some(
                    Ok(
                        match ending {
                            Some(reply) => reply,
                            None => ReplyModel::Swapped(inode),
                        },
                    ),
                ),
            ),
        },
{
    reveal_with_fuel(run, 3);
}

/// Linking a created file into its parent takes five requests.
pub proof fn lemma_run_link(
    store: StoreModel,
    parent: InodeId,
    name: Seq<char>,
    dir_id: DataId,
    created: CreatedModel,
    fuel: nat,
)
    requires
        fuel >= 5,
    ensures
        run(
            store,
            StepModel::Continue(
                TaskModel::Resolve { ino: parent, goal: GoalModel::Link { name, dir_id, created } },
                RequestModel::Load(Key::inode(parent)),
            ),
            fuel,
        ) == match link(store, parent, name, created.inode.id, dir_id) {
            (linked, Err(e)) => (linked, Some(Err::<ReplyModel, FsError>(e))),
            (linked, Ok(_)) => (linked, Some(Ok(ReplyModel::Created(created)))),
        },
{
    match parent_directory(store, parent) {
        Ok(dir) => {
            match dir.with_id(dir_id).add(name, created.inode.id) {
                Ok(grown) => {
                    reveal_with_fuel(run, 4);
                    let copied = store.insert(Key::directory(dir_id), RecordModel::Directory(grown));
                    lemma_run_swap(
                        copied,
                        parent,
                        dir_id,
                        InodeKind::Directory,
                        Some(ReplyModel::Created(created)),
                        (fuel - 3) as nat,
                    );
                },
                Err(_) => {
                    reveal_with_fuel(run, 3);
                },
            }
        },
        Err(_) => {
            reveal_with_fuel(run, 3);
        },
    }
}

/// A write stores one chunk after the other, then the file record, and
/// repoints the inode.
pub proof fn lemma_run_write(
    store: StoreModel,
    ino: InodeId,
    file: FileModel,
    data: Seq<u8>,
    next: u64,
    fuel: nat,
)
    requires
        fuel + next >= file.chunks.len() + 3,
        fuel >= 3,
    ensures
        run(store, write_next(ino, file, data, next), fuel) == ({
            let chunked = store_chunks(store, file, data, next);
            let recorded = chunked.insert(Key::file(file.id), RecordModel::File(file));
            match swap_target(recorded, ino, file.id, InodeKind::File) {
                (swapped, Err(e)) => (swapped, Some(Err::<ReplyModel, FsError>(e))),
                (swapped, Ok(_)) => (swapped, Some(Ok(ReplyModel::Written(file)))),
            }
        }),
    decreases file.chunks.len() - next,
{
    reveal_with_fuel(run, 2);
    if next < file.chunks.len() && next * CHUNK_SIZE <= data.len() {
        let stored = store.insert(
            Key::chunk(file.chunks[next as int].id),
            RecordModel::Chunk {
                id: file.chunks[next as int].id,
                bytes: chunk_bytes(data, next as int),
            },
        );
        if next < u64::MAX {
            lemma_run_write(stored, ino, file, data, (next + 1) as u64, (fuel - 1) as nat);
        } else {
            let recorded = stored.insert(Key::file(file.id), RecordModel::File(file));
            lemma_run_swap(
                recorded,
                ino,
                file.id,
                InodeKind::File,
                Some(ReplyModel::Written(file)),
                (fuel - 2) as nat,
            );
        }
    } else {
        let recorded = store.insert(Key::file(file.id), RecordModel::File(file));
        lemma_run_swap(
            recorded,
            ino,
            file.id,
            InodeKind::File,
            Some(ReplyModel::Written(file)),
            (fuel - 1) as nat,
        );
    }
}

/// On a truthful store that nobody else writes to, an operation ends within
/// its budget of requests, leaves the store as its meaning says and returns
/// what its meaning says.
pub proof fn run_computes_meaning(store: StoreModel, op: OperationModel, fuel: nat)
    requires
        fuel >= budget(store, op),
    ensures
        run(store, begin(op), fuel) == (meaning(store, op).0, Some(meaning(store, op).1)),
{
    match op {
        OperationModel::Attributes { ino } => {
            lemma_run_resolve(store, ino, GoalModel::Attributes, fuel);
            reveal_with_fuel(run, 1);
        },
        OperationModel::Open { ino } => {
            lemma_run_resolve(store, ino, GoalModel::Open, fuel);
            reveal_with_fuel(run, 1);
        },
        OperationModel::Lookup { parent, name } => {
            lemma_run_resolve(store, parent, GoalModel::Lookup { name }, fuel);
            match resolve(store, parent) {
                Ok((inode, RecordModel::Directory(dir))) => {
                    match dir.find(name) {
                        Some(child) => {
                            lemma_run_resolve(
                                store,
                                child,
                                GoalModel::Attributes,
                                (fuel - 2) as nat,
                            );
                            reveal_with_fuel(run, 1);
                        },
                        None => {
                            reveal_with_fuel(run, 1);
                        },
                    }
                },
                Ok(_) => {
                    reveal_with_fuel(run, 1);
                },
                Err(_) => {},
            }
        },
        OperationModel::List { ino, offset } => {
            lemma_run_resolve(store, ino, GoalModel::List { offset }, fuel);
            match resolve(store, ino) {
                Ok((inode, RecordModel::Directory(dir))) => {
                    lemma_run_listing(store, ino, dir, offset, Seq::empty(), (fuel - 2) as nat);
                },
                Ok(_) => {
                    reveal_with_fuel(run, 1);
                },
                Err(_) => {},
            }
        },
        OperationModel::Read { ino, from, length } => {
            lemma_run_resolve(store, ino, GoalModel::Read { from, length }, fuel);
            match resolve(store, ino) {
                Ok((inode, RecordModel::File(file))) => {
                    if file.wf() {
                        let start = range_start(file.size as nat, from as nat);
                        let end = range_end(file.size as nat, from as nat, length as nat);
                        lemma_run_gather(
                            store,
                            file,
                            first_chunk(start) as u64,
                            end_chunk(start, end) as u64,
                            start as u64,
                            end as u64,
                            Seq::empty(),
                            (fuel - 2) as nat,
                        );
                    } else {
                        reveal_with_fuel(run, 1);
                    }
                },
                Ok(_) => {
                    reveal_with_fuel(run, 1);
                },
                Err(_) => {},
            }
        },
        OperationModel::Create { parent, name, file_id, inode_id, dir_id } => {
            reveal_with_fuel(run, 3);
            let created = created_file(file_id, inode_id);
            let with_file = store.insert(Key::file(file_id), RecordModel::File(created.file));
            let with_inode = with_file.insert(
                Key::inode(inode_id),
                RecordModel::Inode(created.inode),
            );
            lemma_run_link(with_inode, parent, name, dir_id, created, (fuel - 2) as nat);
        },
        OperationModel::Write { ino, file_id, data } => {
            lemma_run_resolve(store, ino, GoalModel::Write { file_id, data }, fuel);
            match resolve(store, ino) {
                Ok((inode, RecordModel::File(held))) => {
                    lemma_run_write(
                        store,
                        ino,
                        file_of(file_id, data),
                        data,
                        0,
                        (fuel - 2) as nat,
                    );
                },
                Ok(_) => {
                    reveal_with_fuel(run, 1);
                },
                Err(_) => {},
            }
        },
        OperationModel::SwapTarget { id, target, kind } => {
            lemma_run_swap(store, id, target, kind, None, fuel);
        },
    }
}

} // verus!

//! The decisions of the engine: how an operation starts and what it does
//! with each answer of the store.

use vstd::prelude::*;
use crate::attributes::Attributes;
use crate::buffer::append_range;
use crate::checksum::{calculate_checksum, same_hash, sha256};
use crate::directory::{Directory, DirectoryModel};
use crate::error::FsError;
use crate::file::{
    append_piece, chunk_bytes, chunk_length, clamp_range, covering_chunks, empty_file, end_chunk,
    file_of, first_chunk, piece_of, range_end, range_start, File, FileModel, CHUNK_SIZE,
};
use crate::inode::{Inode, InodeId, InodeKind, ROOT_INODE};
use crate::link::Link;
use crate::manage::FsManagable;
use crate::protocol::{
    Created, CreatedModel, Goal, GoalModel, Operation, OperationModel, Reply, ReplyModel, Request,
    RequestModel, Response, ResponseModel, Step, StepModel, Task, TaskModel,
};
use crate::record::{ChunkData, Key, Record, RecordModel};
use crate::utils::generate_unique_id;

verus! {

/// The operation ends with the error `e`.
pub open spec fn fail(e: FsError) -> StepModel {
    StepModel::Finished(Err(e))
}

/// The operation ends with `reply`.
pub open spec fn done(reply: ReplyModel) -> StepModel {
    StepModel::Finished(Ok(reply))
}

/// The error of a read that found no record: what the answer says instead.
pub open spec fn load_error(response: ResponseModel) -> FsError {
    match response {
        ResponseModel::Missing => FsError::NotFound,
        ResponseModel::Undecodable => FsError::SerializationError,
        _ => FsError::TransportError,
    }
}

/// Attributes of the object behind inode `ino` whose record is `record`.
pub open spec fn record_attributes(ino: InodeId, record: RecordModel) -> Attributes {
    match record {
        RecordModel::File(file) => file.attributes(ino),
        RecordModel::Directory(dir) => dir.attributes(ino),
        _ => Link::attributes(ino),
    }
}

/// Whether `record` is the file or directory that `inode` points at.
pub open spec fn is_target(inode: Inode, record: RecordModel) -> bool {
    &&& record.key() == Key::target(inode)
    &&& record is File || record is Directory
}

/// The file that a create operation makes: empty, behind a new inode.
pub open spec fn created_file(file_id: u128, inode_id: u128) -> CreatedModel {
    CreatedModel {
        inode: Inode { id: inode_id, target: file_id, kind: InodeKind::File },
        file: empty_file(file_id),
        attributes: empty_file(file_id).attributes(inode_id),
    }
}

/// How an operation starts: its first request.
pub open spec fn begin(op: OperationModel) -> StepModel {
    match op {
        OperationModel::Attributes { ino } => StepModel::Continue(
            TaskModel::Resolve { ino, goal: GoalModel::Attributes },
            RequestModel::Load(Key::inode(ino)),
        ),
        OperationModel::Lookup { parent, name } => StepModel::Continue(
            TaskModel::Resolve { ino: parent, goal: GoalModel::Lookup { name } },
            RequestModel::Load(Key::inode(parent)),
        ),
        OperationModel::List { ino, offset } => StepModel::Continue(
            TaskModel::Resolve { ino, goal: GoalModel::List { offset } },
            RequestModel::Load(Key::inode(ino)),
        ),
        OperationModel::Open { ino } => StepModel::Continue(
            TaskModel::Resolve { ino, goal: GoalModel::Open },
            RequestModel::Load(Key::inode(ino)),
        ),
        OperationModel::Read { ino, from, length } => StepModel::Continue(
            TaskModel::Resolve { ino, goal: GoalModel::Read { from, length } },
            RequestModel::Load(Key::inode(ino)),
        ),
        OperationModel::Create { parent, name, file_id, inode_id, dir_id } => StepModel::Continue(
            TaskModel::StoreFile { parent, name, dir_id, created: created_file(file_id, inode_id) },
            RequestModel::Store(RecordModel::File(empty_file(file_id))),
        ),
        OperationModel::Write { ino, file_id, data } => StepModel::Continue(
            TaskModel::Resolve { ino, goal: GoalModel::Write { file_id, data } },
            RequestModel::Load(Key::inode(ino)),
        ),
        OperationModel::SwapTarget { id, target, kind } => StepModel::Continue(
            TaskModel::Swap { id, target, kind, ending: None },
            RequestModel::Load(Key::inode(id)),
        ),
    }
}

/// What follows the inode of a resolution. A name is linked under a
/// directory only: for that goal an inode of another kind ends the
/// operation before anything is dereferenced. For the other goals a
/// symbolic link ends the operation, and anything else is dereferenced.
pub open spec fn after_inode(inode: Inode, goal: GoalModel) -> StepModel {
    if goal is Link && !(inode.kind is Directory) {
        fail(FsError::NotADirectory)
    } else if inode.kind is Symlink {
        fail(FsError::Unimplemented)
    } else {
        StepModel::Continue(TaskModel::Deref { inode, goal }, RequestModel::Load(Key::target(inode)))
    }
}

/// Continues a listing: asks for the inode of the next entry, or ends with
/// the listing when the kinds of all entries are known.
pub open spec fn list_next(ino: InodeId, dir: DirectoryModel, offset: i64, kinds: Seq<InodeKind>)
    -> StepModel {
    let at = dir.first_listed(offset as int) + kinds.len();
    if at < dir.entries.len() {
        StepModel::Continue(
            TaskModel::Kinds { ino, dir, offset, kinds },
            RequestModel::Load(Key::inode(dir.entries[at].inode_id)),
        )
    } else {
        done(ReplyModel::Listing(dir.listing(ino, offset as int, kinds)))
    }
}

/// Continues a read: asks for the bytes of chunk `next`, or ends with the
/// bytes gathered when no chunk is left.
pub open spec fn read_next(
    file: FileModel,
    next: u64,
    last: u64,
    start: u64,
    end: u64,
    out: Seq<u8>,
) -> StepModel {
    if next >= last {
        done(ReplyModel::Data(out))
    } else if next >= file.chunks.len() || next * CHUNK_SIZE > u64::MAX {
        fail(FsError::SerializationError)
    } else {
        StepModel::Continue(
            TaskModel::Chunks { file, next, last, start, end, out },
            RequestModel::Load(Key::chunk(file.chunks[next as int].id)),
        )
    }
}

/// Continues a write: stores chunk `next` of the content, or the file record
/// when every chunk is stored.
pub open spec fn write_next(ino: InodeId, file: FileModel, data: Seq<u8>, next: u64) -> StepModel {
    if next < file.chunks.len() && next * CHUNK_SIZE <= data.len() {
        StepModel::Continue(
            TaskModel::StoreChunks { ino, file, data, next },
            RequestModel::Store(
                RecordModel::Chunk {
                    id: file.chunks[next as int].id,
                    bytes: chunk_bytes(data, next as int),
                },
            ),
        )
    } else {
        StepModel::Continue(
            TaskModel::StoreRecord { ino, file },
            RequestModel::Store(RecordModel::File(file)),
        )
    }
}

/// What follows the record of a resolution, by the goal of the task.
pub open spec fn after_record(inode: Inode, record: RecordModel, goal: GoalModel) -> StepModel {
    match goal {
        GoalModel::Attributes => done(ReplyModel::Attributes(record_attributes(inode.id, record))),
        GoalModel::Open => match record {
            RecordModel::File(file) => done(ReplyModel::Opened(0)),
            _ => fail(FsError::WrongKind),
        },
        GoalModel::Lookup { name } => match record {
            RecordModel::Directory(dir) => match dir.find(name) {
                Some(child) => StepModel::Continue(
                    TaskModel::Resolve { ino: child, goal: GoalModel::Attributes },
                    RequestModel::Load(Key::inode(child)),
                ),
                None => fail(FsError::NotFound),
            },
            _ => fail(FsError::NotADirectory),
        },
        GoalModel::List { offset } => match record {
            RecordModel::Directory(dir) => list_next(inode.id, dir, offset, Seq::empty()),
            _ => fail(FsError::NotADirectory),
        },
        GoalModel::Read { from, length } => match record {
            RecordModel::File(file) => if file.wf() {
                let start = range_start(file.size as nat, from as nat);
                let end = range_end(file.size as nat, from as nat, length as nat);
                read_next(
                    file,
                    first_chunk(start) as u64,
                    end_chunk(start, end) as u64,
                    start as u64,
                    end as u64,
                    Seq::empty(),
                )
            } else {
                fail(FsError::SerializationError)
            },
            _ => fail(FsError::WrongKind),
        },
        GoalModel::Link { name, dir_id, created } => match record {
            RecordModel::Directory(dir) => match dir.with_id(dir_id).add(name, created.inode.id) {
                Ok(grown) => StepModel::Continue(
                    TaskModel::StoreDirectory { parent: inode.id, dir_id, created },
                    RequestModel::Store(RecordModel::Directory(grown)),
                ),
                Err(e) => fail(e),
            },
            _ => fail(FsError::NotADirectory),
        },
        GoalModel::Write { file_id, data } => match record {
            RecordModel::File(held) => write_next(inode.id, file_of(file_id, data), data, 0),
            _ => fail(FsError::WrongKind),
        },
    }
}

/// Whether `bytes` stored under `id` are the bytes of chunk `next` of
/// `file`: under the chunk's identity, of its length, with its digest.
pub open spec fn is_chunk(file: FileModel, next: u64, id: u128, bytes: Seq<u8>) -> bool {
    &&& next < file.chunks.len()
    &&& next * CHUNK_SIZE <= u64::MAX
    &&& id == file.chunks[next as int].id
    &&& bytes.len() == file.chunks[next as int].size
    &&& sha256(bytes) == file.chunks[next as int].hash
}

/// What a task does with the answer to its request.
pub open spec fn advance_model(task: TaskModel, response: ResponseModel) -> StepModel {
    match task {
        TaskModel::Resolve { ino, goal } => match response {
            ResponseModel::Found(RecordModel::Inode(inode)) => if inode.id == ino {
                after_inode(inode, goal)
            } else {
                fail(FsError::SerializationError)
            },
            ResponseModel::Found(_) => fail(FsError::SerializationError),
            _ => fail(load_error(response)),
        },
        TaskModel::Deref { inode, goal } => match response {
            ResponseModel::Found(record) => if is_target(inode, record) {
                after_record(inode, record, goal)
            } else {
                fail(FsError::SerializationError)
            },
            _ => fail(load_error(response)),
        },
        TaskModel::Kinds { ino, dir, offset, kinds } => match response {
            ResponseModel::Found(RecordModel::Inode(inode)) => {
                let at = dir.first_listed(offset as int) + kinds.len();
                if at < dir.entries.len() && inode.id == dir.entries[at].inode_id {
                    list_next(ino, dir, offset, kinds.push(inode.kind))
                } else {
                    fail(FsError::SerializationError)
                }
            },
            ResponseModel::Found(_) => fail(FsError::SerializationError),
            _ => fail(load_error(response)),
        },
        TaskModel::Chunks { file, next, last, start, end, out } => match response {
            ResponseModel::Found(RecordModel::Chunk { id, bytes }) => if is_chunk(
                file,
                next,
                id,
                bytes,
            ) {
                read_next(
                    file,
                    (next + 1) as u64,
                    last,
                    start,
                    end,
                    out + piece_of(bytes, next as int, start as int, end as int),
                )
            } else {
                fail(FsError::SerializationError)
            },
            ResponseModel::Found(_) => fail(FsError::SerializationError),
            _ => fail(load_error(response)),
        },
        TaskModel::StoreFile { parent, name, dir_id, created } => match response {
            ResponseModel::Stored => StepModel::Continue(
                TaskModel::StoreInode { parent, name, dir_id, created },
                RequestModel::Store(RecordModel::Inode(created.inode)),
            ),
            _ => fail(FsError::TransportError),
        },
        TaskModel::StoreInode { parent, name, dir_id, created } => match response {
            ResponseModel::Stored => StepModel::Continue(
                TaskModel::Resolve { ino: parent, goal: GoalModel::Link { name, dir_id, created } },
                RequestModel::Load(Key::inode(parent)),
            ),
            _ => fail(FsError::TransportError),
        },
        TaskModel::StoreDirectory { parent, dir_id, created } => match response {
            ResponseModel::Stored => StepModel::Continue(
                TaskModel::Swap {
                    id: parent,
                    target: dir_id,
                    kind: InodeKind::Directory,
                    ending: Some(ReplyModel::Created(created)),
                },
                RequestModel::Load(Key::inode(parent)),
            ),
            _ => fail(FsError::TransportError),
        },
        TaskModel::StoreChunks { ino, file, data, next } => match response {
            ResponseModel::Stored => if next < u64::MAX {
                write_next(ino, file, data, (next + 1) as u64)
            } else {
                StepModel::Continue(
                    TaskModel::StoreRecord { ino, file },
                    RequestModel::Store(RecordModel::File(file)),
                )
            },
            _ => fail(FsError::TransportError),
        },
        TaskModel::StoreRecord { ino, file } => match response {
            ResponseModel::Stored => StepModel::Continue(
                TaskModel::Swap {
                    id: ino,
                    target: file.id,
                    kind: InodeKind::File,
                    ending: Some(ReplyModel::Written(file)),
                },
                RequestModel::Load(Key::inode(ino)),
            ),
            _ => fail(FsError::TransportError),
        },
        TaskModel::Swap { id, target, kind, ending } => match response {
            ResponseModel::Found(RecordModel::Inode(inode)) => if inode.id == id {
                let swapped = Inode { id, target, kind };
                StepModel::Continue(
                    TaskModel::Commit {
                        reply: match ending {
                            Some(reply) => reply,
                            None => ReplyModel::Swapped(swapped),
                        },
                    },
                    RequestModel::Store(RecordModel::Inode(swapped)),
                )
            } else {
                fail(FsError::SerializationError)
            },
            ResponseModel::Found(_) => fail(FsError::SerializationError),
            _ => fail(load_error(response)),
        },
        TaskModel::Commit { reply } => match response {
            ResponseModel::Stored => done(reply),
            _ => fail(FsError::TransportError),
        },
    }
}

/// The error of a read that found no record.
fn load_failure(response: &Response) -> (e: FsError)
    ensures
        e == load_error(response@),
{
    match response {
        Response::Missing => FsError::NotFound,
        Response::Undecodable => FsError::SerializationError,
        _ => FsError::TransportError,
    }
}

/// Starts an operation: the task and its first request.
pub fn start(op: Operation) -> (step: Step)
    ensures
        step@ == begin(op@),
{
    match op {
        Operation::Attributes { ino } => Step::Continue(
            Task::Resolve { ino, goal: Goal::Attributes },
            Request::Load(Key::of_inode(ino)),
        ),
        Operation::Lookup { parent, name } => Step::Continue(
            Task::Resolve { ino: parent, goal: Goal::Lookup { name } },
            Request::Load(Key::of_inode(parent)),
        ),
        Operation::List { ino, offset } => Step::Continue(
            Task::Resolve { ino, goal: Goal::List { offset } },
            Request::Load(Key::of_inode(ino)),
        ),
        Operation::Open { ino } => Step::Continue(
            Task::Resolve { ino, goal: Goal::Open },
            Request::Load(Key::of_inode(ino)),
        ),
        Operation::Read { ino, from, length } => Step::Continue(
            Task::Resolve { ino, goal: Goal::Read { from, length } },
            Request::Load(Key::of_inode(ino)),
        ),
        Operation::Create { parent, name, file_id, inode_id, dir_id } => {
            let file = File::empty(file_id);
            let stored = File::empty(file_id);
            let attributes = file.get_entry_attributes(inode_id);
            let inode = Inode { id: inode_id, target: file_id, kind: InodeKind::File };
            Step::Continue(
                Task::StoreFile { parent, name, dir_id, created: Created { inode, file, attributes } },
                Request::Store(Record::File(stored)),
            )
        },
        Operation::Write { ino, file_id, data } => Step::Continue(
            Task::Resolve { ino, goal: Goal::Write { file_id, data } },
            Request::Load(Key::of_inode(ino)),
        ),
        Operation::SwapTarget { id, target, kind } => Step::Continue(
            Task::Swap { id, target, kind, ending: None },
            Request::Load(Key::of_inode(id)),
        ),
    }
}

impl File {
    /// The creation of an empty file `name` in the directory behind `parent`,
    /// with identifiers drawn for the file record, its inode and the new
    /// version of the directory. The identifier of the root is reserved: no
    /// new inode gets it. Where it is drawn, the one after it is taken.
    pub fn create_new(parent: InodeId, name: String) -> (op: Operation)
        ensures
            op@ matches OperationModel::Create { parent: p, name: n, inode_id, .. } && p == parent
                && n == name@ && inode_id != ROOT_INODE,
    {
        let file_id = generate_unique_id();
        let drawn = generate_unique_id();
        let inode_id = if drawn == ROOT_INODE {
            ROOT_INODE + 1
        } else {
            drawn
        };
        let dir_id = generate_unique_id();
        Operation::Create { parent, name, file_id, inode_id, dir_id }
    }
}

/// What follows the inode of a resolution.
fn follow_inode(inode: Inode, goal: Goal) -> (step: Step)
    ensures
        step@ == after_inode(inode, goal@),
{
    let links = match goal {
        Goal::Link { .. } => true,
        _ => false,
    };
    match inode.kind {
        InodeKind::Directory => {
            let key = Key::of_target(&inode);
            Step::Continue(Task::Deref { inode, goal }, Request::Load(key))
        },
        _ if links => Step::Finished(Err(FsError::NotADirectory)),
        InodeKind::Symlink => Step::Finished(Err(FsError::Unimplemented)),
        InodeKind::File => {
            let key = Key::of_target(&inode);
            Step::Continue(Task::Deref { inode, goal }, Request::Load(key))
        },
    }
}

/// Continues a listing.
fn continue_listing(ino: InodeId, dir: Directory, offset: i64, kinds: Vec<InodeKind>) -> (step:
    Step)
    ensures
        step@ == list_next(ino, dir@, offset, kinds@),
{
    let first: usize = dir.first_listed(offset);
    if kinds.len() < dir.entries.len() - first {
        let key = Key::of_inode(dir.entries[first + kinds.len()].inode_id);
        Step::Continue(Task::Kinds { ino, dir, offset, kinds }, Request::Load(key))
    } else {
        Step::Finished(Ok(Reply::Listing(dir.get_directory_reply(ino, offset, kinds.as_slice()))))
    }
}

/// Continues a read.
fn continue_reading(file: File, next: u64, last: u64, start: u64, end: u64, out: Vec<u8>) -> (step:
    Step)
    ensures
        step@ == read_next(file@, next, last, start, end, out@),
{
    if next >= last {
        Step::Finished(Ok(Reply::Data(out)))
    } else if next >= file.chunks.len() as u64 || next > u64::MAX / CHUNK_SIZE {
        Step::Finished(Err(FsError::SerializationError))
    } else {
        let key = Key::of_chunk(file.chunks[next as usize].id);
        Step::Continue(Task::Chunks { file, next, last, start, end, out }, Request::Load(key))
    }
}

/// Continues a write.
fn continue_writing(ino: InodeId, file: File, data: Vec<u8>, next: u64) -> (step: Step)
    ensures
        step@ == write_next(ino, file@, data@, next),
{
    let size: u64 = data.len() as u64;
    if next < file.chunks.len() as u64 && next <= size / CHUNK_SIZE {
        let id = file.chunks[next as usize].id;
        let len: u64 = chunk_length(size, next);
        let from: usize = (next * CHUNK_SIZE) as usize;
        let mut bytes: Vec<u8> = Vec::new();
        append_range(&mut bytes, data.as_slice(), from, from + len as usize);
        assert(bytes@ =~= chunk_bytes(data@, next as int));
        Step::Continue(
            Task::StoreChunks { ino, file, data, next },
            Request::Store(Record::Chunk(ChunkData { id, bytes })),
        )
    } else {
        let stored = file.duplicate();
        Step::Continue(Task::StoreRecord { ino, file }, Request::Store(Record::File(stored)))
    }
}

/// What follows the record of a resolution.
fn follow_record(inode: Inode, record: Record, goal: Goal) -> (step: Step)
    requires
        is_target(inode, record@),
    ensures
        step@ == after_record(inode, record@, goal@),
{
    match goal {
        Goal::Attributes => {
            let attributes = match record {
                Record::File(file) => file.get_entry_attributes(inode.id),
                Record::Directory(dir) => dir.get_entry_attributes(inode.id),
                Record::Link(link) => link.get_entry_attributes(inode.id),
                _ => Link { id: 0, target_inode: 0 }.get_entry_attributes(inode.id),
            };
            Step::Finished(Ok(Reply::Attributes(attributes)))
        },
        Goal::Open => match record {
            Record::File(_) => Step::Finished(Ok(Reply::Opened(0))),
            _ => Step::Finished(Err(FsError::WrongKind)),
        },
        Goal::Lookup { name } => match record {
            Record::Directory(dir) => match dir.find_entry(name.as_str()) {
                Some(child) => Step::Continue(
                    Task::Resolve { ino: child, goal: Goal::Attributes },
                    Request::Load(Key::of_inode(child)),
                ),
                None => Step::Finished(Err(FsError::NotFound)),
            },
            _ => Step::Finished(Err(FsError::NotADirectory)),
        },
        Goal::List { offset } => match record {
            Record::Directory(dir) => continue_listing(inode.id, dir, offset, Vec::new()),
            _ => Step::Finished(Err(FsError::NotADirectory)),
        },
        Goal::Read { from, length } => match record {
            Record::File(file) => {
                if file.is_well_formed() {
                    let (start, end) = clamp_range(file.size, from, length);
                    let (first, last) = covering_chunks(start, end);
                    continue_reading(file, first, last, start, end, Vec::new())
                } else {
                    Step::Finished(Err(FsError::SerializationError))
                }
            },
            _ => Step::Finished(Err(FsError::WrongKind)),
        },
        Goal::Link { name, dir_id, created } => match record {
            Record::Directory(dir) => match dir.with_id(dir_id).add_entry(name, created.inode.id) {
                Ok(grown) => Step::Continue(
                    Task::StoreDirectory { parent: inode.id, dir_id, created },
                    Request::Store(Record::Directory(grown)),
                ),
                Err(e) => Step::Finished(Err(e)),
            },
            _ => Step::Finished(Err(FsError::NotADirectory)),
        },
        Goal::Write { file_id, data } => match record {
            Record::File(_) => {
                let file = File::new_from_data(file_id, data.as_slice());
                continue_writing(inode.id, file, data, 0)
            },
            _ => Step::Finished(Err(FsError::WrongKind)),
        },
    }
}

/// Whether `record` is the file or directory that `inode` points at.
pub fn check_target(inode: &Inode, record: &Record) -> (ok: bool)
    ensures
        ok == is_target(*inode, record@),
{
    match record {
        Record::File(file) => match inode.kind {
            InodeKind::File => file.id == inode.target,
            _ => false,
        },
        Record::Directory(dir) => match inode.kind {
            InodeKind::Directory => dir.id == inode.target,
            _ => false,
        },
        _ => false,
    }
}

/// Whether `data` holds the bytes of chunk `next` of `file`.
fn check_chunk(file: &File, next: u64, data: &ChunkData) -> (ok: bool)
    ensures
        ok == is_chunk(file@, next, data.id, data.bytes@),
{
    if next >= file.chunks.len() as u64 || next > u64::MAX / CHUNK_SIZE {
        return false;
    }
    let chunk = &file.chunks[next as usize];
    if data.id != chunk.id || data.bytes.len() as u64 != chunk.size {
        return false;
    }
    let digest = calculate_checksum(data.bytes.as_slice());
    same_hash(&digest, &chunk.hash)
}

/// Resumes `task` with the answer to its request: the next request, or the
/// result of the operation.
pub fn advance(task: Task, response: Response) -> (step: Step)
    ensures
        step@ == advance_model(task@, response@),
{
    match task {
        Task::Resolve { ino, goal } => match response {
            Response::Found(Record::Inode(inode)) => {
                if inode.id == ino {
                    follow_inode(inode, goal)
                } else {
                    Step::Finished(Err(FsError::SerializationError))
                }
            },
            Response::Found(_) => Step::Finished(Err(FsError::SerializationError)),
            other => Step::Finished(Err(load_failure(&other))),
        },
        Task::Deref { inode, goal } => match response {
            Response::Found(record) => {
                if check_target(&inode, &record) {
                    follow_record(inode, record, goal)
                } else {
                    Step::Finished(Err(FsError::SerializationError))
                }
            },
            other => Step::Finished(Err(load_failure(&other))),
        },
        Task::Kinds { ino, dir, offset, kinds } => match response {
            Response::Found(Record::Inode(inode)) => {
                let first: usize = dir.first_listed(offset);
                if kinds.len() < dir.entries.len() - first && inode.id == dir.entries[first
                    + kinds.len()].inode_id {
                    let mut kinds = kinds;
                    kinds.push(inode.kind);
                    continue_listing(ino, dir, offset, kinds)
                } else {
                    Step::Finished(Err(FsError::SerializationError))
                }
            },
            Response::Found(_) => Step::Finished(Err(FsError::SerializationError)),
            other => Step::Finished(Err(load_failure(&other))),
        },
        Task::Chunks { file, next, last, start, end, out } => match response {
            Response::Found(Record::Chunk(data)) => {
                if check_chunk(&file, next, &data) {
                    let mut out = out;
                    append_piece(&mut out, data.bytes.as_slice(), next, start, end);
                    continue_reading(file, next + 1, last, start, end, out)
                } else {
                    Step::Finished(Err(FsError::SerializationError))
                }
            },
            Response::Found(_) => Step::Finished(Err(FsError::SerializationError)),
            other => Step::Finished(Err(load_failure(&other))),
        },
        Task::StoreFile { parent, name, dir_id, created } => match response {
            Response::Stored => {
                let inode = created.inode;
                Step::Continue(
                    Task::StoreInode { parent, name, dir_id, created },
                    Request::Store(Record::Inode(inode)),
                )
            },
            _ => Step::Finished(Err(FsError::TransportError)),
        },
        Task::StoreInode { parent, name, dir_id, created } => match response {
            Response::Stored => Step::Continue(
                Task::Resolve { ino: parent, goal: Goal::Link { name, dir_id, created } },
                Request::Load(Key::of_inode(parent)),
            ),
            _ => Step::Finished(Err(FsError::TransportError)),
        },
        Task::StoreDirectory { parent, dir_id, created } => match response {
            Response::Stored => Step::Continue(
                Task::Swap {
                    id: parent,
                    target: dir_id,
                    kind: InodeKind::Directory,
                    ending: Some(Reply::Created(created)),
                },
                Request::Load(Key::of_inode(parent)),
            ),
            _ => Step::Finished(Err(FsError::TransportError)),
        },
        Task::StoreChunks { ino, file, data, next } => match response {
            Response::Stored => {
                if next < u64::MAX {
                    continue_writing(ino, file, data, next + 1)
                } else {
                    let stored = file.duplicate();
                    Step::Continue(
                        Task::StoreRecord { ino, file },
                        Request::Store(Record::File(stored)),
                    )
                }
            },
            _ => Step::Finished(Err(FsError::TransportError)),
        },
        Task::StoreRecord { ino, file } => match response {
            Response::Stored => {
                let target = file.id;
                Step::Continue(
                    Task::Swap {
                        id: ino,
                        target,
                        kind: InodeKind::File,
                        ending: Some(Reply::Written(file)),
                    },
                    Request::Load(Key::of_inode(ino)),
                )
            },
            _ => Step::Finished(Err(FsError::TransportError)),
        },
        Task::Swap { id, target, kind, ending } => match response {
            Response::Found(Record::Inode(inode)) => {
                if inode.id == id {
                    let mut swapped = inode;
                    swapped.swap_target(target, kind);
                    let reply = match ending {
                        Some(reply) => reply,
                        None => Reply::Swapped(swapped),
                    };
                    Step::Continue(Task::Commit { reply }, Request::Store(Record::Inode(swapped)))
                } else {
                    Step::Finished(Err(FsError::SerializationError))
                }
            },
            Response::Found(_) => Step::Finished(Err(FsError::SerializationError)),
            other => Step::Finished(Err(load_failure(&other))),
        },
        Task::Commit { reply } => match response {
            Response::Stored => Step::Finished(Ok(reply)),
            _ => Step::Finished(Err(FsError::TransportError)),
        },
    }
}

} // verus!

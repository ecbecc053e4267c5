//! The operations of the engine as resumable tasks.
//!
//! The engine never talks to the key-value store itself. An operation starts
//! as a [`Task`] with one [`Request`]; the caller performs the request and
//! hands the [`Response`] to [`advance`], which answers with the next request
//! or with the result. Nothing is kept between operations, and nothing locks
//! the store between the requests of one operation.

use vstd::prelude::*;
use crate::attributes::Attributes;
use crate::directory::{Directory, DirectoryModel, ListEntry, ListEntryModel, listing_models};
use crate::error::FsError;
use crate::file::{File, FileModel};
use crate::inode::{DataId, Inode, InodeId, InodeKind};
use crate::record::{Key, Record, RecordModel};

verus! {

/// One round-trip that a task asks of the store.
#[derive(Debug, Clone, PartialEq, Eq)]
pub enum Request {
    /// Read the record stored under the key.
    Load(Key),
    /// Write the record under its own key, replacing what is there.
    Store(Record),
}

/// Mathematical value of a [`Request`].
pub enum RequestModel {
    Load(Key),
    Store(RecordModel),
}

impl View for Request {
    type V = RequestModel;

    open spec fn view(&self) -> RequestModel {
        match *self {
            Request::Load(key) => RequestModel::Load(key),
            Request::Store(record) => RequestModel::Store(record@),
        }
    }
}

/// What the store answered.
#[derive(Debug, Clone, PartialEq, Eq)]
pub enum Response {
    /// The record that was stored under the key.
    Found(Record),
    /// Nothing is stored under the key.
    Missing,
    /// The record was written.
    Stored,
    /// The stored value could not be decoded as a record.
    Undecodable,
    /// The round-trip failed.
    Failed,
}

/// Mathematical value of a [`Response`].
pub enum ResponseModel {
    Found(RecordModel),
    Missing,
    Stored,
    Undecodable,
    Failed,
}

impl View for Response {
    type V = ResponseModel;

    open spec fn view(&self) -> ResponseModel {
        match *self {
            Response::Found(record) => ResponseModel::Found(record@),
            Response::Missing => ResponseModel::Missing,
            Response::Stored => ResponseModel::Stored,
            Response::Undecodable => ResponseModel::Undecodable,
            Response::Failed => ResponseModel::Failed,
        }
    }
}

/// A file that was created: its inode, its record and its attributes.
#[derive(Debug, Clone, PartialEq, Eq)]
pub struct Created {
    pub inode: Inode,
    pub file: File,
    pub attributes: Attributes,
}

/// Mathematical value of a [`Created`].
pub struct CreatedModel {
    pub inode: Inode,
    pub file: FileModel,
    pub attributes: Attributes,
}

impl View for Created {
    type V = CreatedModel;

    open spec fn view(&self) -> CreatedModel {
        CreatedModel { inode: self.inode, file: self.file@, attributes: self.attributes }
    }
}

/// What an operation returns when it succeeds.
#[derive(Debug, Clone, PartialEq, Eq)]
pub enum Reply {
    /// The attributes of an object.
    Attributes(Attributes),
    /// The elements of a directory listing.
    Listing(Vec<ListEntry>),
    /// A handle to an open file.
    Opened(u64),
    /// The bytes read.
    Data(Vec<u8>),
    /// The file that was created.
    Created(Created),
    /// The record of the file as it was written.
    Written(File),
    /// The inode as it was rewritten.
    Swapped(Inode),
}

/// Mathematical value of a [`Reply`].
pub enum ReplyModel {
    Attributes(Attributes),
    Listing(Seq<ListEntryModel>),
    Opened(u64),
    Data(Seq<u8>),
    Created(CreatedModel),
    Written(FileModel),
    Swapped(Inode),
}

impl View for Reply {
    type V = ReplyModel;

    open spec fn view(&self) -> ReplyModel {
        match *self {
            Reply::Attributes(attr) => ReplyModel::Attributes(attr),
            Reply::Listing(listing) => ReplyModel::Listing(listing_models(listing@)),
            Reply::Opened(handle) => ReplyModel::Opened(handle),
            Reply::Data(bytes) => ReplyModel::Data(bytes@),
            Reply::Created(created) => ReplyModel::Created(created@),
            Reply::Written(file) => ReplyModel::Written(file@),
            Reply::Swapped(inode) => ReplyModel::Swapped(inode),
        }
    }
}

/// How an operation ended.
pub type Outcome = Result<Reply, FsError>;

/// Mathematical value of an [`Outcome`].
pub type OutcomeModel = Result<ReplyModel, FsError>;

/// The value of an outcome.
pub open spec fn outcome_model(outcome: Outcome) -> OutcomeModel {
    match outcome {
        Ok(reply) => Ok(reply@),
        Err(e) => Err(e),
    }
}

/// An operation of the engine with its arguments.
#[derive(Debug, Clone, PartialEq, Eq)]
pub enum Operation {
    /// Attributes of the object behind `ino`.
    Attributes { ino: InodeId },
    /// Attributes of the entry `name` of the directory behind `parent`.
    Lookup { parent: InodeId, name: String },
    /// Listing of the directory behind `ino` from position `offset`.
    List { ino: InodeId, offset: i64 },
    /// A handle to the file behind `ino`.
    Open { ino: InodeId },
    /// The bytes `[from, from + length)` of the file behind `ino`.
    Read { ino: InodeId, from: u64, length: u64 },
    /// A new empty file `name` in the directory behind `parent`. The three
    /// identifiers are those of the file record, of its inode and of the new
    /// version of the directory.
    Create { parent: InodeId, name: String, file_id: DataId, inode_id: InodeId, dir_id: DataId },
    /// Replace the content of the file behind `ino` by `data`, in a new file
    /// record `file_id`.
    Write { ino: InodeId, file_id: DataId, data: Vec<u8> },
    /// Repoint the inode `id` at `target` of kind `kind`.
    SwapTarget { id: InodeId, target: DataId, kind: InodeKind },
}

/// Mathematical value of an [`Operation`].
pub enum OperationModel {
    Attributes { ino: InodeId },
    Lookup { parent: InodeId, name: Seq<char> },
    List { ino: InodeId, offset: i64 },
    Open { ino: InodeId },
    Read { ino: InodeId, from: u64, length: u64 },
    Create { parent: InodeId, name: Seq<char>, file_id: DataId, inode_id: InodeId, dir_id: DataId },
    Write { ino: InodeId, file_id: DataId, data: Seq<u8> },
    SwapTarget { id: InodeId, target: DataId, kind: InodeKind },
}

impl View for Operation {
    type V = OperationModel;

    open spec fn view(&self) -> OperationModel {
        match *self {
            Operation::Attributes { ino } => OperationModel::Attributes { ino },
            Operation::Lookup { parent, name } => OperationModel::Lookup { parent, name: name@ },
            Operation::List { ino, offset } => OperationModel::List { ino, offset },
            Operation::Open { ino } => OperationModel::Open { ino },
            Operation::Read { ino, from, length } => OperationModel::Read { ino, from, length },
            Operation::Create { parent, name, file_id, inode_id, dir_id } => OperationModel::Create {
                parent,
                name: name@,
                file_id,
                inode_id,
                dir_id,
            },
            Operation::Write { ino, file_id, data } => OperationModel::Write {
                ino,
                file_id,
                data: data@,
            },
            Operation::SwapTarget { id, target, kind } => OperationModel::SwapTarget {
                id,
                target,
                kind,
            },
        }
    }
}

/// What a task does with an object once its inode and record are loaded.
#[derive(Debug, Clone, PartialEq, Eq)]
pub enum Goal {
    Attributes,
    Open,
    Lookup { name: String },
    List { offset: i64 },
    Read { from: u64, length: u64 },
    Link { name: String, dir_id: DataId, created: Created },
    Write { file_id: DataId, data: Vec<u8> },
}

/// Mathematical value of a [`Goal`].
pub enum GoalModel {
    Attributes,
    Open,
    Lookup { name: Seq<char> },
    List { offset: i64 },
    Read { from: u64, length: u64 },
    Link { name: Seq<char>, dir_id: DataId, created: CreatedModel },
    Write { file_id: DataId, data: Seq<u8> },
}

impl View for Goal {
    type V = GoalModel;

    open spec fn view(&self) -> GoalModel {
        match *self {
            Goal::Attributes => GoalModel::Attributes,
            Goal::Open => GoalModel::Open,
            Goal::Lookup { name } => GoalModel::Lookup { name: name@ },
            Goal::List { offset } => GoalModel::List { offset },
            Goal::Read { from, length } => GoalModel::Read { from, length },
            Goal::Link { name, dir_id, created } => GoalModel::Link {
                name: name@,
                dir_id,
                created: created@,
            },
            Goal::Write { file_id, data } => GoalModel::Write { file_id, data: data@ },
        }
    }
}

/// An operation that waits for the answer to its last request.
#[derive(Debug, Clone, PartialEq, Eq)]
pub enum Task {
    /// Waits for the inode `ino`.
    Resolve { ino: InodeId, goal: Goal },
    /// Waits for the record that `inode` points at.
    Deref { inode: Inode, goal: Goal },
    /// Lists `dir`: waits for the inode of the next entry whose kind is not
    /// yet in `kinds`.
    Kinds { ino: InodeId, dir: Directory, offset: i64, kinds: Vec<InodeKind> },
    /// Reads `[start, end)` of `file`: waits for the bytes of chunk `next`.
    Chunks { file: File, next: u64, last: u64, start: u64, end: u64, out: Vec<u8> },
    /// Creates a file: waits for the file record to be written.
    StoreFile { parent: InodeId, name: String, dir_id: DataId, created: Created },
    /// Creates a file: waits for its inode to be written.
    StoreInode { parent: InodeId, name: String, dir_id: DataId, created: Created },
    /// Waits for the new version of a directory to be written, then repoints
    /// the inode `parent` at it.
    StoreDirectory { parent: InodeId, dir_id: DataId, created: Created },
    /// Writes a file: waits for chunk `next` to be written.
    StoreChunks { ino: InodeId, file: File, data: Vec<u8>, next: u64 },
    /// Writes a file: waits for the file record to be written, then repoints
    /// the inode `ino` at it.
    StoreRecord { ino: InodeId, file: File },
    /// Repoints an inode: waits for the inode `id` as it is stored now. The
    /// operation then ends with `ending`, or with the rewritten inode.
    Swap { id: InodeId, target: DataId, kind: InodeKind, ending: Option<Reply> },
    /// Waits for the last write of the operation.
    Commit { reply: Reply },
}

/// Mathematical value of a [`Task`].
pub enum TaskModel {
    Resolve { ino: InodeId, goal: GoalModel },
    Deref { inode: Inode, goal: GoalModel },
    Kinds { ino: InodeId, dir: DirectoryModel, offset: i64, kinds: Seq<InodeKind> },
    Chunks { file: FileModel, next: u64, last: u64, start: u64, end: u64, out: Seq<u8> },
    StoreFile { parent: InodeId, name: Seq<char>, dir_id: DataId, created: CreatedModel },
    StoreInode { parent: InodeId, name: Seq<char>, dir_id: DataId, created: CreatedModel },
    StoreDirectory { parent: InodeId, dir_id: DataId, created: CreatedModel },
    StoreChunks { ino: InodeId, file: FileModel, data: Seq<u8>, next: u64 },
    StoreRecord { ino: InodeId, file: FileModel },
    Swap { id: InodeId, target: DataId, kind: InodeKind, ending: Option<ReplyModel> },
    Commit { reply: ReplyModel },
}

impl View for Task {
    type V = TaskModel;

    open spec fn view(&self) -> TaskModel {
        match *self {
            Task::Resolve { ino, goal } => TaskModel::Resolve { ino, goal: goal@ },
            Task::Deref { inode, goal } => TaskModel::Deref { inode, goal: goal@ },
            Task::Kinds { ino, dir, offset, kinds } => TaskModel::Kinds {
                ino,
                dir: dir@,
                offset,
                kinds: kinds@,
            },
            Task::Chunks { file, next, last, start, end, out } => TaskModel::Chunks {
                file: file@,
                next,
                last,
                start,
                end,
                out: out@,
            },
            Task::StoreFile { parent, name, dir_id, created } => TaskModel::StoreFile {
                parent,
                name: name@,
                dir_id,
                created: created@,
            },
            Task::StoreInode { parent, name, dir_id, created } => TaskModel::StoreInode {
                parent,
                name: name@,
                dir_id,
                created: created@,
            },
            Task::StoreDirectory { parent, dir_id, created } => TaskModel::StoreDirectory {
                parent,
                dir_id,
                created: created@,
            },
            Task::StoreChunks { ino, file, data, next } => TaskModel::StoreChunks {
                ino,
                file: file@,
                data: data@,
                next,
            },
            Task::StoreRecord { ino, file } => TaskModel::StoreRecord { ino, file: file@ },
            Task::Swap { id, target, kind, ending } => TaskModel::Swap {
                id,
                target,
                kind,
                ending: match ending {
                    Some(reply) => Some(reply@),
                    None => None,
                },
            },
            Task::Commit { reply } => TaskModel::Commit { reply: reply@ },
        }
    }
}

/// Where an operation stands: with a request that it waits on, or done.
#[derive(Debug)]
pub enum Step {
    /// Perform the request and hand the answer to [`advance`] with the task.
    Continue(Task, Request),
    /// The operation is over.
    Finished(Outcome),
}

/// Mathematical value of a [`Step`].
pub enum StepModel {
    Continue(TaskModel, RequestModel),
    Finished(OutcomeModel),
}

impl View for Step {
    type V = StepModel;

    open spec fn view(&self) -> StepModel {
        match *self {
            Step::Continue(task, request) => StepModel::Continue(task@, request@),
            Step::Finished(outcome) => StepModel::Finished(outcome_model(outcome)),
        }
    }
}

} // verus!

//! A key-value store in memory that answers every request truthfully, and
//! the loop that runs an operation of the engine against it.

use std::collections::BTreeMap;
use vstd::prelude::*;
use crate::attributes::Attributes;
use crate::buffer::append_range;
use crate::directory::Directory;
use crate::engine::{advance, check_target, record_attributes, start};
use crate::error::FsError;
use crate::file::File;
use crate::inode::{DataId, Inode, InodeId, InodeKind};
use crate::link::Link;
use crate::manage::FsManagable;
use crate::protocol::{outcome_model, Operation, Outcome, Request, Response, Step};
use crate::record::{ChunkData, Key, Record, RecordModel, Table};
use crate::semantics::{
    budget, directory_record, file_record, inode_at, meaning, run, run_computes_meaning,
    serve_model, target_of, StoreModel,
};

verus! {

/// The records of a store, one table per kind of record.
pub struct MemoryStore {
    inodes: BTreeMap<u128, Inode>,
    directories: BTreeMap<u128, Directory>,
    files: BTreeMap<u128, File>,
    links: BTreeMap<u128, Link>,
    chunks: BTreeMap<u128, Vec<u8>>,
}

impl View for MemoryStore {
    type V = StoreModel;

    closed spec fn view(&self) -> StoreModel {
        Map::new(
            |key: Key|
                match key.table {
                    Table::Inode => self.inodes@.contains_key(key.id),
                    Table::Directory => self.directories@.contains_key(key.id),
                    Table::File => self.files@.contains_key(key.id),
                    Table::Link => self.links@.contains_key(key.id),
                    Table::Chunk => self.chunks@.contains_key(key.id),
                },
            |key: Key|
                match key.table {
                    Table::Inode => RecordModel::Inode(self.inodes@[key.id]),
                    Table::Directory => RecordModel::Directory(self.directories@[key.id]@),
                    Table::File => RecordModel::File(self.files@[key.id]@),
                    Table::Link => RecordModel::Link(self.links@[key.id]),
                    Table::Chunk => RecordModel::Chunk { id: key.id, bytes: self.chunks@[key.id]@ },
                },
        )
    }
}

impl MemoryStore {
    /// A store that holds nothing.
    pub fn new() -> (store: MemoryStore)
        ensures
            store@ == Map::<Key, RecordModel>::empty(),
    {
        let store = MemoryStore {
            inodes: BTreeMap::new(),
            directories: BTreeMap::new(),
            files: BTreeMap::new(),
            links: BTreeMap::new(),
            chunks: BTreeMap::new(),
        };
        assert(store@ =~= Map::<Key, RecordModel>::empty());
        store
    }

    /// Stores `record` under its key, replacing what was there.
    pub fn put(&mut self, record: Record)
        ensures
            final(self)@ == old(self)@.insert(record@.key(), record@),
    {
        match record {
            Record::Inode(inode) => {
                self.inodes.insert(inode.id, inode);
            },
            Record::Directory(dir) => {
                self.directories.insert(dir.id, dir);
            },
            Record::File(file) => {
                self.files.insert(file.id, file);
            },
            Record::Link(link) => {
                self.links.insert(link.id, link);
            },
            Record::Chunk(chunk) => {
                self.chunks.insert(chunk.id, chunk.bytes);
            },
        }
        assert(self@ =~= old(self)@.insert(record@.key(), record@));
    }

    /// A copy of the record stored under `key`.
    pub fn get(&self, key: Key) -> (found: Option<Record>)
        ensures
            match found {
                Some(record) => self@.contains_key(key) && record@ == self@[key],
                None => !self@.contains_key(key),
            },
    {
        match key.table {
            Table::Inode => match self.inodes.get(&key.id) {
                Some(inode) => Some(Record::Inode(*inode)),
                None => None,
            },
            Table::Directory => match self.directories.get(&key.id) {
                Some(dir) => Some(Record::Directory(dir.with_id(dir.id))),
                None => None,
            },
            Table::File => match self.files.get(&key.id) {
                Some(file) => Some(Record::File(file.duplicate())),
                None => None,
            },
            Table::Link => match self.links.get(&key.id) {
                Some(link) => Some(Record::Link(*link)),
                None => None,
            },
            Table::Chunk => match self.chunks.get(&key.id) {
                Some(held) => {
                    let mut bytes: Vec<u8> = Vec::new();
                    append_range(&mut bytes, held.as_slice(), 0, held.len());
                    assert(bytes@ =~= held@);
                    Some(Record::Chunk(ChunkData { id: key.id, bytes }))
                },
                None => None,
            },
        }
    }

    /// Answers one request.
    pub fn serve(&mut self, request: Request) -> (response: Response)
        ensures
            (final(self)@, response@) == serve_model(old(self)@, request@),
    {
        match request {
            Request::Load(key) => match self.get(key) {
                Some(record) => Response::Found(record),
                None => Response::Missing,
            },
            Request::Store(record) => {
                self.put(record);
                Response::Stored
            },
        }
    }

    /// Runs `op` to its end against this store.
    pub fn execute(&mut self, op: Operation) -> (outcome: Outcome)
        ensures
            (final(self)@, outcome_model(outcome)) == meaning(old(self)@, op@),
    {
        let ghost target = meaning(self@, op@);
        let ghost mut fuel: nat = budget(self@, op@);
        proof {
            run_computes_meaning(self@, op@, fuel);
        }
        let mut step = start(op);
        loop
            invariant
                run(self@, step@, fuel) == (target.0, Some(target.1)),
                target == meaning(old(self)@, op@),
            decreases fuel,
        {
            match step {
                Step::Finished(outcome) => {
                    return outcome;
                },
                Step::Continue(task, request) => {
                    let response = self.serve(request);
                    step = advance(task, response);
                    proof {
                        fuel = (fuel - 1) as nat;
                    }
                },
            }
        }
    }
}

impl Inode {
    /// The inode `id` as `kvs` holds it.
    pub fn get_by_id(id: InodeId, kvs: &MemoryStore) -> (found: Result<Inode, FsError>)
        ensures
            found == inode_at(kvs@, id),
    {
        match kvs.get(Key::of_inode(id)) {
            Some(Record::Inode(inode)) => {
                if inode.id == id {
                    Ok(inode)
                } else {
                    Err(FsError::SerializationError)
                }
            },
            Some(_) => Err(FsError::SerializationError),
            None => Err(FsError::NotFound),
        }
    }

    /// Kind and identifier of the record that the inode points at, where
    /// `kvs` holds it.
    pub fn get_target(&self, kvs: &MemoryStore) -> (target: Result<(InodeKind, DataId), FsError>)
        ensures
            match target_of(kvs@, *self) {
                Ok(record) => target == Ok::<(InodeKind, DataId), FsError>(
                    (self.kind, self.target),
                ),
                Err(e) => target == Err::<(InodeKind, DataId), FsError>(e),
            },
    {
        match self.kind {
            InodeKind::Symlink => Err(FsError::Unimplemented),
            _ => match kvs.get(Key::of_target(self)) {
                Some(record) => {
                    if check_target(self, &record) {
                        Ok((self.kind, self.target))
                    } else {
                        Err(FsError::SerializationError)
                    }
                },
                None => Err(FsError::NotFound),
            },
        }
    }

    /// Attributes of the object behind the inode, where `kvs` holds its
    /// record.
    pub fn get_attribute(&self, kvs: &MemoryStore) -> (attr: Result<Attributes, FsError>)
        ensures
            match target_of(kvs@, *self) {
                Ok(record) => attr == Ok::<Attributes, FsError>(
                    record_attributes(self.id, record),
                ),
                Err(e) => attr == Err::<Attributes, FsError>(e),
            },
    {
        match self.kind {
            InodeKind::Symlink => Err(FsError::Unimplemented),
            _ => match kvs.get(Key::of_target(self)) {
                Some(record) => {
                    if check_target(self, &record) {
                        match record {
                            Record::File(file) => Ok(file.get_entry_attributes(self.id)),
                            Record::Directory(dir) => Ok(dir.get_entry_attributes(self.id)),
                            _ => Err(FsError::SerializationError),
                        }
                    } else {
                        Err(FsError::SerializationError)
                    }
                },
                None => Err(FsError::NotFound),
            },
        }
    }
}

impl Directory {
    /// The directory record `id` as `kvs` holds it.
    pub fn get_by_id(id: DataId, kvs: &MemoryStore) -> (found: Result<Directory, FsError>)
        ensures
            match directory_record(kvs@, id) {
                Ok(model) => found matches Ok(dir) && dir@ == model,
                Err(e) => found matches Err(f) && f == e,
            },
    {
        match kvs.get(Key { table: Table::Directory, id }) {
            Some(Record::Directory(dir)) => {
                if dir.id == id {
                    Ok(dir)
                } else {
                    Err(FsError::SerializationError)
                }
            },
            Some(_) => Err(FsError::SerializationError),
            None => Err(FsError::NotFound),
        }
    }
}

impl File {
    /// The file record `id` as `kvs` holds it.
    pub fn get_by_id(id: DataId, kvs: &MemoryStore) -> (found: Result<File, FsError>)
        ensures
            match file_record(kvs@, id) {
                Ok(model) => found matches Ok(file) && file@ == model,
                Err(e) => found matches Err(f) && f == e,
            },
    {
        match kvs.get(Key { table: Table::File, id }) {
            Some(Record::File(file)) => {
                if file.id == id {
                    Ok(file)
                } else {
                    Err(FsError::SerializationError)
                }
            },
            Some(_) => Err(FsError::SerializationError),
            None => Err(FsError::NotFound),
        }
    }
}

} // verus!

//! In-memory entries of a mounted tree: what every entry carries, and the
//! file entry with its chunk list.

use vstd::prelude::*;
use crate::attributes::{block_count, blocks_for, Attributes, BLOCK_SIZE};
use crate::chunk::{copy_chunks, Chunk};
use crate::inode::InodeKind;

verus! {

/// Times, owner and mode of an entry. Times are seconds since the epoch.
#[derive(Debug, Clone, Copy, PartialEq, Eq, Structural)]
pub struct Metadata {
    pub created_at: u64,
    pub modified_at: u64,
    pub accessed_at: u64,
    pub changed_at: u64,
    pub permissions: u16,
    pub uid: u32,
    pub gid: u32,
    pub rdev: u32,
    pub flags: u32,
}

/// What every entry of the tree carries.
#[derive(Debug, Clone, PartialEq, Eq)]
pub struct FSEntryBase {
    pub inode: u64,
    pub name: String,
    pub metadata: Metadata,
}

/// A time of the metadata as the attribute record holds it: the low 64 bits,
/// read as a signed number.
pub open spec fn attr_time(seconds: u64) -> i64 {
    seconds as i64
}

/// The attributes of an entry of the given kind, size and link count.
pub open spec fn entry_attributes(
    inode: u64,
    metadata: Metadata,
    kind: InodeKind,
    size: u64,
    blocks: u64,
    nlink: u32,
) -> Attributes {
    Attributes {
        ino: inode as u128,
        size,
        blocks,
        atime: attr_time(metadata.accessed_at),
        mtime: attr_time(metadata.modified_at),
        ctime: attr_time(metadata.changed_at),
        crtime: attr_time(metadata.created_at),
        kind,
        perm: metadata.permissions,
        nlink,
        uid: metadata.uid,
        gid: metadata.gid,
        rdev: metadata.rdev,
        flags: metadata.flags,
    }
}

/// Builds the attribute record of an entry.
pub fn make_attributes(
    inode: u64,
    metadata: &Metadata,
    kind: InodeKind,
    size: u64,
    blocks: u64,
    nlink: u32,
) -> (attr: Attributes)
    ensures
        attr == entry_attributes(inode, *metadata, kind, size, blocks, nlink),
{
    Attributes {
        ino: inode as u128,
        size,
        blocks,
        atime: #[verifier::truncate]
        (metadata.accessed_at as i64),
        mtime: #[verifier::truncate]
        (metadata.modified_at as i64),
        ctime: #[verifier::truncate]
        (metadata.changed_at as i64),
        crtime: #[verifier::truncate]
        (metadata.created_at as i64),
        kind,
        perm: metadata.permissions,
        nlink,
        uid: metadata.uid,
        gid: metadata.gid,
        rdev: metadata.rdev,
        flags: metadata.flags,
    }
}

/// What every kind of entry answers.
pub trait FSEntry {
    /// Inode number of the entry.
    spec fn inode(&self) -> u64;

    /// Name of the entry.
    spec fn name(&self) -> Seq<char>;

    /// Metadata of the entry.
    spec fn metadata(&self) -> Metadata;

    /// Attributes that the entry reports.
    spec fn attributes(&self) -> Attributes;

    fn get_name(&self) -> (name: &str)
        ensures
            name@ == self.name(),
    ;

    fn get_metadata(&self) -> (metadata: &Metadata)
        ensures
            *metadata == self.metadata(),
    ;

    fn get_inode(&self) -> (inode: u64)
        ensures
            inode == self.inode(),
    ;

    fn make_file_attr(&self) -> (attr: Attributes)
        ensures
            attr == self.attributes(),
    ;
}

/// A regular file of the tree.
#[derive(Debug, Clone, PartialEq, Eq)]
pub struct FileEntry {
    base: FSEntryBase,
    pub size: u64,
    chunks: Vec<Chunk>,
    pub checksum: [u8; 32],
}

/// Mathematical value of a [`FileEntry`].
pub struct FileEntryModel {
    pub inode: u64,
    pub name: Seq<char>,
    pub metadata: Metadata,
    pub size: u64,
    pub chunks: Seq<Chunk>,
    pub checksum: [u8; 32],
}

impl View for FileEntry {
    type V = FileEntryModel;

    closed spec fn view(&self) -> FileEntryModel {
        FileEntryModel {
            inode: self.base.inode,
            name: self.base.name@,
            metadata: self.base.metadata,
            size: self.size,
            chunks: self.chunks@,
            checksum: self.checksum,
        }
    }
}

/// The chunk list `held` after the chunks `given` were set from position
/// `offset` on: they replace what was there and extend the list where it is
/// too short. From a position past the end they are appended.
pub open spec fn spliced(held: Seq<Chunk>, given: Seq<Chunk>, offset: int) -> Seq<Chunk> {
    if offset >= held.len() {
        held + given
    } else if offset + given.len() >= held.len() {
        held.subrange(0, offset) + given
    } else {
        held.subrange(0, offset) + given + held.subrange(offset + given.len(), held.len() as int)
    }
}

impl FSEntry for FileEntry {
    closed spec fn inode(&self) -> u64 {
        self.base.inode
    }

    closed spec fn name(&self) -> Seq<char> {
        self.base.name@
    }

    closed spec fn metadata(&self) -> Metadata {
        self.base.metadata
    }

    open spec fn attributes(&self) -> Attributes {
        entry_attributes(
            self.inode(),
            self.metadata(),
            InodeKind::File,
            self@.size,
            blocks_for(self@.size as nat, BLOCK_SIZE as nat) as u64,
            1,
        )
    }

    fn get_name(&self) -> (name: &str) {
        self.base.name.as_str()
    }

    fn get_metadata(&self) -> (metadata: &Metadata) {
        &self.base.metadata
    }

    fn get_inode(&self) -> (inode: u64) {
        self.base.inode
    }

    fn make_file_attr(&self) -> (attr: Attributes) {
        make_attributes(
            self.base.inode,
            &self.base.metadata,
            InodeKind::File,
            self.size,
            block_count(self.size, BLOCK_SIZE),
            1,
        )
    }
}

impl FileEntry {
    /// A file entry of the given parts.
    pub fn new(base: FSEntryBase, size: u64, chunks: Vec<Chunk>, checksum: [u8; 32]) -> (entry:
        FileEntry)
        ensures
            entry@.inode == base.inode,
            entry@.name == base.name@,
            entry@.metadata == base.metadata,
            entry@.size == size,
            entry@.chunks == chunks@,
            entry@.checksum == checksum,
            entry.inode() == base.inode,
            entry.name() == base.name@,
            entry.metadata() == base.metadata,
    {
        FileEntry { base, size, chunks, checksum }
    }

    /// Size of the file in bytes.
    pub fn get_size(&self) -> (size: u64)
        ensures
            size == self@.size,
    {
        self.size
    }

    /// A copy of the chunk list.
    pub fn get_chunks(&self) -> (chunks: Vec<Chunk>)
        ensures
            chunks@ == self@.chunks,
    {
        let chunks = copy_chunks(&self.chunks, 0, self.chunks.len());
        assert(chunks@ =~= self@.chunks);
        chunks
    }

    /// A copy of the `length` chunks from position `offset` on.
    pub fn get_chunks_in_range(&self, offset: usize, length: usize) -> (chunks: Vec<Chunk>)
        requires
            offset + length <= self@.chunks.len(),
        ensures
            chunks@ == self@.chunks.subrange(offset as int, offset + length),
    {
        let held: usize = self.chunks.len();
        assert(offset + length <= held);
        copy_chunks(&self.chunks, offset, offset + length)
    }

    /// Replaces the chunk list.
    pub fn set_chunks(&mut self, chunks: Vec<Chunk>)
        ensures
            final(self)@ == (FileEntryModel { chunks: chunks@, ..old(self)@ }),
            final(self).inode() == old(self).inode(),
            final(self).name() == old(self).name(),
            final(self).metadata() == old(self).metadata(),
    {
        self.chunks = chunks;
    }

    /// Sets `chunks` from position `offset` on.
    pub fn set_chunks_at_offset(&mut self, chunks: Vec<Chunk>, offset: usize)
        requires
            chunks@.len() == 0 || offset + chunks@.len() - 1 <= usize::MAX,
        ensures
            final(self)@ == (FileEntryModel {
                chunks: spliced(old(self)@.chunks, chunks@, offset as int),
                ..old(self)@
            }),
            final(self).inode() == old(self).inode(),
            final(self).name() == old(self).name(),
            final(self).metadata() == old(self).metadata(),
    {
        let ghost held = self.chunks@;
        let mut i: usize = 0;
        assert(self.chunks@ =~= spliced(held, chunks@.subrange(0, 0), offset as int));
        while i < chunks.len()
            invariant
                i <= chunks@.len(),
                chunks@.len() == 0 || offset + chunks@.len() - 1 <= usize::MAX,
                self.base == old(self).base,
                self.size == old(self).size,
                self.checksum == old(self).checksum,
                held == old(self).chunks@,
                self.chunks@ == spliced(held, chunks@.subrange(0, i as int), offset as int),
            decreases chunks@.len() - i,
        {
            if offset + i < self.chunks.len() {
                self.chunks.set(offset + i, chunks[i]);
            } else {
                self.chunks.push(chunks[i]);
            }
            assert(self.chunks@ =~= spliced(held, chunks@.subrange(0, i + 1), offset as int));
            i += 1;
        }
        assert(chunks@.subrange(0, chunks@.len() as int) =~= chunks@);
    }
}

} // verus!

//! Directories: ordered name-to-inode mappings that are never changed in
//! place. Every mutation produces a new directory value.

use vstd::prelude::*;
use crate::attributes::{Attributes, DEFAULT_OWNER};
use crate::error::FsError;
use crate::inode::{DataId, InodeId, InodeKind};

verus! {

/// One name in a directory and the inode it stands for.
#[derive(Debug, Clone, PartialEq, Eq)]
pub struct DirectoryEntry {
    pub name: String,
    pub inode_id: InodeId,
}

/// Mathematical value of a [`DirectoryEntry`].
pub struct EntryModel {
    pub name: Seq<char>,
    pub inode_id: InodeId,
}

impl View for DirectoryEntry {
    type V = EntryModel;

    open spec fn view(&self) -> EntryModel {
        EntryModel { name: self.name@, inode_id: self.inode_id }
    }
}

/// One stored version of a directory.
#[derive(Debug, Clone, PartialEq, Eq)]
pub struct Directory {
    pub id: DataId,
    pub entries: Vec<DirectoryEntry>,
}

/// Mathematical value of a [`Directory`]: its identifier and its entries in
/// stored order.
pub struct DirectoryModel {
    pub id: DataId,
    pub entries: Seq<EntryModel>,
}

/// The values of a sequence of entries, in the same order.
pub open spec fn entry_models(entries: Seq<DirectoryEntry>) -> Seq<EntryModel> {
    Seq::new(entries.len(), |i: int| entries[i]@)
}

impl View for Directory {
    type V = DirectoryModel;

    open spec fn view(&self) -> DirectoryModel {
        DirectoryModel { id: self.id, entries: entry_models(self.entries@) }
    }
}

/// One element of a directory listing.
#[derive(Debug, Clone, PartialEq, Eq)]
pub struct ListEntry {
    pub name: String,
    pub inode_id: InodeId,
    pub kind: InodeKind,
}

/// Mathematical value of a [`ListEntry`].
pub struct ListEntryModel {
    pub name: Seq<char>,
    pub inode_id: InodeId,
    pub kind: InodeKind,
}

impl View for ListEntry {
    type V = ListEntryModel;

    open spec fn view(&self) -> ListEntryModel {
        ListEntryModel { name: self.name@, inode_id: self.inode_id, kind: self.kind }
    }
}

/// The values of a listing, in the same order.
pub open spec fn listing_models(listing: Seq<ListEntry>) -> Seq<ListEntryModel> {
    Seq::new(listing.len(), |i: int| listing[i]@)
}

/// Inode of the first entry called `name`, if there is one.
pub open spec fn first_named(entries: Seq<EntryModel>, name: Seq<char>) -> Option<InodeId>
    decreases entries.len(),
{
    if entries.len() == 0 {
        None
    } else if entries[0].name == name {
        Some(entries[0].inode_id)
    } else {
        first_named(entries.drop_first(), name)
    }
}

/// The synthetic entries `.` and `..` that open a listing from its start.
/// Both stand for the directory itself.
pub open spec fn dot_entries(ino: InodeId) -> Seq<ListEntryModel> {
    seq![
        ListEntryModel { name: "."@, inode_id: ino, kind: InodeKind::Directory },
        ListEntryModel { name: ".."@, inode_id: ino, kind: InodeKind::Directory },
    ]
}

impl DirectoryModel {
    /// Names are unique within a directory.
    pub open spec fn wf(self) -> bool {
        forall|i: int, j: int|
            0 <= i < j < self.entries.len() ==> self.entries[i].name != self.entries[j].name
    }

    /// Whether some entry is called `name`.
    pub open spec fn has_name(self, name: Seq<char>) -> bool {
        exists|i: int| 0 <= i < self.entries.len() && self.entries[i].name == name
    }

    /// Inode that `name` stands for, if the directory has that name.
    pub open spec fn find(self, name: Seq<char>) -> Option<InodeId> {
        first_named(self.entries, name)
    }

    /// The directory with one more entry at its end.
    pub open spec fn with_entry(self, name: Seq<char>, inode_id: InodeId) -> DirectoryModel {
        DirectoryModel { id: self.id, entries: self.entries.push(EntryModel { name, inode_id }) }
    }

    /// The same entries under another identifier.
    pub open spec fn with_id(self, id: DataId) -> DirectoryModel {
        DirectoryModel { id, entries: self.entries }
    }

    /// Adding a name: refused where the directory has it already.
    pub open spec fn add(self, name: Seq<char>, inode_id: InodeId) -> Result<
        DirectoryModel,
        FsError,
    > {
        if self.has_name(name) {
            Err(FsError::AlreadyExists)
        } else {
            Ok(self.with_entry(name, inode_id))
        }
    }

    /// Link count: the two synthetic entries and one per stored entry, held
    /// at the largest `u32` where the directory has more entries than that.
    pub open spec fn nlinks(self) -> u32 {
        if self.entries.len() + 2 <= u32::MAX {
            (self.entries.len() + 2) as u32
        } else {
            u32::MAX
        }
    }

    /// Attributes reported for this directory behind inode `ino`.
    pub open spec fn attributes(self, ino: InodeId) -> Attributes {
        Attributes {
            ino,
            size: 0,
            blocks: 0,
            atime: 0,
            mtime: 0,
            ctime: 0,
            crtime: 0,
            kind: InodeKind::Directory,
            perm: 0o755,
            nlink: self.nlinks(),
            uid: DEFAULT_OWNER,
            gid: DEFAULT_OWNER,
            rdev: 0,
            flags: 0,
        }
    }

    /// Index of the first stored entry that a listing from `offset` holds.
    /// Positions 0 and 1 are `.` and `..`; position `k + 2` is entry `k`.
    pub open spec fn first_listed(self, offset: int) -> int {
        if offset <= 2 {
            0
        } else if offset - 2 <= self.entries.len() {
            offset - 2
        } else {
            self.entries.len() as int
        }
    }

    /// How many stored entries a listing from `offset` holds when `kinds`
    /// gives the kinds of the entries from [`Self::first_listed`] on.
    pub open spec fn listed_count(self, offset: int, kinds: Seq<InodeKind>) -> int {
        let rest = self.entries.len() - self.first_listed(offset);
        if kinds.len() <= rest {
            kinds.len() as int
        } else {
            rest
        }
    }

    /// The stored entries of a listing from `offset`, in stored order, each
    /// with its kind.
    pub open spec fn listed_entries(self, offset: int, kinds: Seq<InodeKind>) -> Seq<
        ListEntryModel,
    > {
        let first = self.first_listed(offset);
        Seq::new(
            self.listed_count(offset, kinds) as nat,
            |k: int|
                ListEntryModel {
                    name: self.entries[first + k].name,
                    inode_id: self.entries[first + k].inode_id,
                    kind: kinds[k],
                },
        )
    }

    /// The listing from `offset` of this directory behind inode `ino`: the two
    /// synthetic entries where `offset` is 0, then the stored entries.
    pub open spec fn listing(self, ino: InodeId, offset: int, kinds: Seq<InodeKind>) -> Seq<
        ListEntryModel,
    > {
        if offset == 0 {
            dot_entries(ino) + self.listed_entries(offset, kinds)
        } else {
            self.listed_entries(offset, kinds)
        }
    }
}

impl DirectoryEntry {
    /// A copy of the entry.
    pub fn duplicate(&self) -> (copy: DirectoryEntry)
        ensures
            copy@ == self@,
    {
        DirectoryEntry { name: self.name.clone(), inode_id: self.inode_id }
    }
}

impl Directory {
    /// A directory without entries.
    pub fn empty(id: DataId) -> (dir: Directory)
        ensures
            dir@.id == id,
            dir@.entries.len() == 0,
            dir@.wf(),
    {
        Directory { id, entries: Vec::new() }
    }

    /// Link count of the directory.
    pub fn get_nlinks(&self) -> (nlinks: u32)
        ensures
            nlinks == self@.nlinks(),
    {
        let len: usize = self.entries.len();
        if len <= 0xffff_fffd {
            len as u32 + 2
        } else {
            u32::MAX
        }
    }

    /// The same entries under the identifier `id`.
    pub fn with_id(&self, id: DataId) -> (copy: Directory)
        ensures
            copy@ == self@.with_id(id),
    {
        let mut entries: Vec<DirectoryEntry> = Vec::new();
        let mut i: usize = 0;
        while i < self.entries.len()
            invariant
                i <= self.entries.len(),
                entries.len() == i,
                forall|j: int| 0 <= j < i ==> entries[j]@ == self.entries[j]@,
            decreases self.entries.len() - i,
        {
            entries.push(self.entries[i].duplicate());
            i += 1;
        }
        let copy = Directory { id, entries };
        assert(copy@.entries =~= self@.entries);
        copy
    }

    /// Looks `name` up: the inode of the first entry of that name.
    pub fn find_entry(&self, name: &str) -> (found: Option<InodeId>)
        ensures
            found == self@.find(name@),
    {
        let wanted: String = name.to_owned();
        let mut i: usize = 0;
        while i < self.entries.len()
            invariant
                i <= self.entries.len(),
                wanted@ == name@,
                forall|j: int| 0 <= j < i ==> self@.entries[j].name != name@,
            decreases self.entries.len() - i,
        {
            if self.entries[i].name == wanted {
                proof {
                    lemma_first_named_at(self@.entries, name@, i as int);
                }
                return Some(self.entries[i].inode_id);
            }
            i += 1;
        }
        proof {
            lemma_first_named_none(self@.entries, name@);
        }
        None
    }

    /// The directory with the entry `name` for `inode_id` added at its end.
    /// The directory itself stays as it is. A name that the directory has
    /// already is refused.
    pub fn add_entry(&self, name: String, inode_id: InodeId) -> (grown: Result<Directory, FsError>)
        ensures
            match self@.add(name@, inode_id) {
                Ok(model) => grown matches Ok(dir) && dir@ == model,
                Err(e) => grown matches Err(f) && f == e,
            },
    {
        let found = self.find_entry(name.as_str());
        proof {
            lemma_find_iff_has_name(self@, name@);
        }
        if found.is_some() {
            return Err(FsError::AlreadyExists);
        }
        let mut grown = self.with_id(self.id);
        grown.entries.push(DirectoryEntry { name, inode_id });
        assert(grown@.entries =~= self@.with_entry(name@, inode_id).entries);
        Ok(grown)
    }

    /// Index of the first stored entry that a listing from `offset` holds.
    pub fn first_listed(&self, offset: i64) -> (first: usize)
        ensures
            first == self@.first_listed(offset as int),
            first <= self.entries.len(),
    {
        if offset <= 2 {
            0
        } else {
            let skipped: u64 = (offset - 2) as u64;
            if skipped <= self.entries.len() as u64 {
                skipped as usize
            } else {
                self.entries.len()
            }
        }
    }

    /// The listing of the directory behind inode `ino` from position `offset`.
    /// `kinds` holds the kinds of the stored entries from
    /// [`Self::first_listed`] on; entries beyond its end are not listed.
    pub fn get_directory_reply(&self, ino: InodeId, offset: i64, kinds: &[InodeKind]) -> (reply:
        Vec<ListEntry>)
        ensures
            listing_models(reply@) == self@.listing(ino, offset as int, kinds@),
    {
        let mut reply: Vec<ListEntry> = Vec::new();
        if offset == 0 {
            reply.push(ListEntry { name: ".".to_owned(), inode_id: ino, kind: InodeKind::Directory });
            reply.push(
                ListEntry { name: "..".to_owned(), inode_id: ino, kind: InodeKind::Directory },
            );
        }
        let first: usize = self.first_listed(offset);
        let rest: usize = self.entries.len() - first;
        let count: usize = if kinds.len() <= rest {
            kinds.len()
        } else {
            rest
        };
        let ghost dots = listing_models(reply@);
        assert(dots =~= if offset == 0 {
            dot_entries(ino)
        } else {
            Seq::empty()
        });
        let ghost listed = self@.listed_entries(offset as int, kinds@);
        let mut k: usize = 0;
        while k < count
            invariant
                k <= count,
                first + count <= self.entries.len(),
                count <= kinds@.len(),
                count == self@.listed_count(offset as int, kinds@),
                first == self@.first_listed(offset as int),
                listed == self@.listed_entries(offset as int, kinds@),
                reply@.len() == dots.len() + k,
                forall|j: int| 0 <= j < dots.len() ==> reply@[j]@ == dots[j],
                forall|j: int| 0 <= j < k ==> reply@[dots.len() + j]@ == listed[j],
            decreases count - k,
        {
            let entry = &self.entries[first + k];
            reply.push(ListEntry { name: entry.name.clone(), inode_id: entry.inode_id, kind: kinds[k] });
            k += 1;
        }
        assert(listing_models(reply@) =~= dots + listed);
        reply
    }
}

/// Position of the first element of a listing from `offset`: 0 for the
/// listing from the start, which opens with `.`; else the position of a
/// stored entry, which is 2 at the least.
pub open spec fn first_position(offset: int) -> int {
    if offset == 0 {
        0
    } else if offset <= 2 {
        2
    } else {
        offset
    }
}

/// The offset from which a listing goes on after element `place` of the
/// listing from `offset`: one more than the position of that element.
pub open spec fn position_after(offset: int, place: int) -> int {
    first_position(offset) + place + 1
}

/// The offset from which a listing goes on after element `place` of the
/// listing from `offset`, held at the largest `i64`.
pub fn next_offset(offset: i64, place: usize) -> (next: i64)
    ensures
        next == if position_after(offset as int, place as int) <= i64::MAX {
            position_after(offset as int, place as int)
        } else {
            i64::MAX as int
        },
{
    let first: i64 = if offset == 0 {
        0
    } else if offset <= 2 {
        2
    } else {
        offset
    };
    if place as u64 >= 0x7fff_ffff_ffff_ffff || first > i64::MAX - 1 - place as i64 {
        i64::MAX
    } else {
        first + place as i64 + 1
    }
}

/// A listing can be taken up where another stopped: the listing from the
/// offset that follows an element holds what came after that element. The
/// one exception is the offset 1 that follows `.`: a listing from there
/// holds the stored entries and leaves `..` out.
pub proof fn listing_resumes_after_an_element(
    dir: DirectoryModel,
    ino: InodeId,
    offset: int,
    place: int,
    kinds: Seq<InodeKind>,
)
    requires
        kinds.len() == dir.entries.len(),
        0 <= place < dir.listing(ino, offset, kinds.skip(dir.first_listed(offset))).len(),
        position_after(offset, place) >= 2,
    ensures
        dir.listing(
            ino,
            position_after(offset, place),
            kinds.skip(dir.first_listed(position_after(offset, place))),
        ) == dir.listing(ino, offset, kinds.skip(dir.first_listed(offset))).skip(place + 1),
{
    let next = position_after(offset, place);
    assert(dir.listing(ino, next, kinds.skip(dir.first_listed(next))) =~= dir.listing(
        ino,
        offset,
        kinds.skip(dir.first_listed(offset)),
    ).skip(place + 1));
}

/// `first_named` finds the entry at `at` when no earlier entry has the name.
pub proof fn lemma_first_named_at(entries: Seq<EntryModel>, name: Seq<char>, at: int)
    requires
        0 <= at < entries.len(),
        entries[at].name == name,
        forall|j: int| 0 <= j < at ==> entries[j].name != name,
    ensures
        first_named(entries, name) == Some(entries[at].inode_id),
    decreases at,
{
    if at > 0 {
        let rest = entries.drop_first();
        assert(rest[at - 1] == entries[at]);
        assert forall|j: int| 0 <= j < at - 1 implies rest[j].name != name by {
            assert(rest[j] == entries[j + 1]);
        }
        lemma_first_named_at(rest, name, at - 1);
    }
}

/// `first_named` finds nothing exactly when no entry has the name.
pub proof fn lemma_first_named_none(entries: Seq<EntryModel>, name: Seq<char>)
    ensures
        first_named(entries, name) is None <==> forall|j: int|
            0 <= j < entries.len() ==> entries[j].name != name,
    decreases entries.len(),
{
    if entries.len() > 0 {
        let rest = entries.drop_first();
        lemma_first_named_none(rest, name);
        if first_named(entries, name) is None {
            assert forall|j: int| 0 <= j < entries.len() implies entries[j].name != name by {
                if j > 0 {
                    assert(rest[j - 1] == entries[j]);
                }
            }
        } else if entries[0].name != name {
            let j = choose|j: int| 0 <= j < rest.len() && rest[j].name == name;
            assert(entries[j + 1] == rest[j]);
        }
    }
}

/// A directory finds a name exactly when it has it.
pub proof fn lemma_find_iff_has_name(dir: DirectoryModel, name: Seq<char>)
    ensures
        dir.find(name) is Some <==> dir.has_name(name),
{
    lemma_first_named_none(dir.entries, name);
}

/// A name that was added is there: adding it a second time, to the directory
/// that the first addition returned, is refused.
pub proof fn add_same_name_twice_is_refused(
    dir: DirectoryModel,
    name: Seq<char>,
    first: InodeId,
    second: InodeId,
)
    ensures
        dir.add(name, first) matches Ok(grown) ==> grown.add(name, second) == Err::<
            DirectoryModel,
            FsError,
        >(FsError::AlreadyExists),
{
    if dir.add(name, first) is Ok {
        let grown = dir.with_entry(name, first);
        assert(grown.entries[dir.entries.len() as int].name == name);
    }
}

/// Adding a name keeps the names unique and everything that was there.
pub proof fn add_keeps_directory_well_formed(dir: DirectoryModel, name: Seq<char>, ino: InodeId)
    requires
        dir.wf(),
    ensures
        dir.add(name, ino) matches Ok(grown) ==> grown.wf() && grown.find(name) == Some(ino)
            && grown.entries.len() == dir.entries.len() + 1 && forall|i: int|
            0 <= i < dir.entries.len() ==> grown.entries[i] == dir.entries[i],
{
    if dir.add(name, ino) is Ok {
        let grown = dir.with_entry(name, ino);
        let last = dir.entries.len() as int;
        assert forall|i: int, j: int| 0 <= i < j < grown.entries.len() implies grown.entries[i].name
            != grown.entries[j].name by {
            if j == last {
                assert(grown.entries[i] == dir.entries[i]);
            }
        }
        lemma_first_named_at(grown.entries, name, last);
    }
}

/// A listing from the start holds `.`, `..` and then every stored entry once,
/// in stored order.
pub proof fn listing_from_start_is_complete(
    dir: DirectoryModel,
    ino: InodeId,
    kinds: Seq<InodeKind>,
)
    requires
        kinds.len() == dir.entries.len(),
    ensures
        dir.listing(ino, 0, kinds).len() == dir.entries.len() + 2,
        dir.listing(ino, 0, kinds)[0].name == "."@,
        dir.listing(ino, 0, kinds)[1].name == ".."@,
        dir.listing(ino, 0, kinds)[0].inode_id == ino,
        dir.listing(ino, 0, kinds)[1].inode_id == ino,
        forall|i: int|
            0 <= i < dir.entries.len() ==> {
                let listed = #[trigger] dir.listing(ino, 0, kinds)[i + 2];
                &&& listed.name == dir.entries[i].name
                &&& listed.inode_id == dir.entries[i].inode_id
                &&& listed.kind == kinds[i]
            },
{
}

/// A listing from position `offset >= 2` skips the first `offset - 2` stored
/// entries and holds the rest as the listing from the start does.
pub proof fn listing_from_offset_is_suffix(
    dir: DirectoryModel,
    ino: InodeId,
    offset: int,
    kinds: Seq<InodeKind>,
)
    requires
        kinds.len() == dir.entries.len(),
        2 <= offset,
    ensures
        offset <= dir.entries.len() + 2 ==> dir.listing(ino, offset, kinds.skip(offset - 2))
            == dir.listing(ino, 0, kinds).skip(offset),
        offset > dir.entries.len() + 2 ==> dir.listing(ino, offset, Seq::empty()).len() == 0,
{
    if offset <= dir.entries.len() + 2 {
        assert(dir.listing(ino, offset, kinds.skip(offset - 2)) =~= dir.listing(
            ino,
            0,
            kinds,
        ).skip(offset));
    }
}

} // verus!

use kvfs::directory::{Directory, DirectoryEntry, ListEntry};
use kvfs::engine::{advance, start};
use kvfs::error::FsError;
use kvfs::file::File;
use kvfs::manage::FsManagable;
use kvfs::inode::{Inode, InodeKind, ROOT_INODE};
use kvfs::link::Link;
use kvfs::protocol::{Created, Operation, Reply, Request, Response, Step, Task};
use kvfs::record::{ChunkData, Key, Record, Table};
use kvfs::store::MemoryStore;

const ROOT_DIR: u128 = 100;

fn bootstrap() -> MemoryStore {
    let mut store = MemoryStore::new();
    store.put(Record::Directory(Directory::empty(ROOT_DIR)));
    store.put(Record::Inode(Inode { id: ROOT_INODE, target: ROOT_DIR, kind: InodeKind::Directory }));
    store
}

fn create(store: &mut MemoryStore, parent: u128, name: &str, base: u128) -> Result<Reply, FsError> {
    store.execute(Operation::Create {
        parent,
        name: name.to_string(),
        file_id: base,
        inode_id: base + 1,
        dir_id: base + 2,
    })
}

fn names(store: &mut MemoryStore, ino: u128, offset: i64) -> Vec<String> {
    match store.execute(Operation::List { ino, offset }) {
        Ok(Reply::Listing(listing)) => listing.into_iter().map(|entry| entry.name).collect(),
        other => panic!("no listing: {:?}", other),
    }
}

fn pattern(len: usize) -> Vec<u8> {
    (0..len).map(|i| (i % 251) as u8).collect()
}

fn step_once(store: &mut MemoryStore, step: Step) -> Step {
    match step {
        Step::Continue(task, request) => advance(task, store.serve(request)),
        done => done,
    }
}

fn finish(store: &mut MemoryStore, mut step: Step) -> Result<Reply, FsError> {
    loop {
        match step {
            Step::Finished(outcome) => return outcome,
            other => step = step_once(store, other),
        }
    }
}

#[test]
fn end_to_end_scenario() {
    let mut store = bootstrap();
    let created = match create(&mut store, 1, "foo.txt", 500) {
        Ok(Reply::Created(created)) => created,
        other => panic!("not created: {:?}", other),
    };
    assert_eq!(created.file.size, 0);
    assert_eq!(created.file.id, 500);
    assert!(created.file.chunks.is_empty());
    assert_eq!(created.file.content_hash, [0u8; 32]);
    assert_eq!(created.inode, Inode { id: 501, target: 500, kind: InodeKind::File });
    assert_eq!(created.attributes, created.file.get_entry_attributes(501));
    match store.execute(Operation::Lookup { parent: 1, name: "foo.txt".to_string() }) {
        Ok(Reply::Attributes(attr)) => {
            assert_eq!(attr.ino, created.inode.id);
            assert_eq!(attr.kind, InodeKind::File);
            assert_eq!(attr.size, 0);
        }
        other => panic!("not found: {:?}", other),
    }
    assert_eq!(names(&mut store, 1, 0), vec![".", "..", "foo.txt"]);
}

#[test]
fn listing_names_every_entry_once_with_its_kind() {
    let mut store = bootstrap();
    create(&mut store, 1, "a", 10).unwrap();
    create(&mut store, 1, "b", 20).unwrap();
    store.put(Record::Directory(Directory::empty(31)));
    store.put(Record::Inode(Inode { id: 30, target: 31, kind: InodeKind::Directory }));
    let mut root = match store.get(Key { table: Table::Directory, id: 22 }) {
        Some(Record::Directory(dir)) => dir,
        other => panic!("no root directory: {:?}", other),
    };
    root.id = 40;
    store.put(Record::Directory(root.add_entry("sub".to_string(), 30).unwrap()));
    store
        .execute(Operation::SwapTarget { id: 1, target: 40, kind: InodeKind::Directory })
        .unwrap();
    let listing = match store.execute(Operation::List { ino: 1, offset: 0 }) {
        Ok(Reply::Listing(listing)) => listing,
        other => panic!("no listing: {:?}", other),
    };
    assert_eq!(
        listing,
        vec![
            ListEntry { name: ".".to_string(), inode_id: 1, kind: InodeKind::Directory },
            ListEntry { name: "..".to_string(), inode_id: 1, kind: InodeKind::Directory },
            ListEntry { name: "a".to_string(), inode_id: 11, kind: InodeKind::File },
            ListEntry { name: "b".to_string(), inode_id: 21, kind: InodeKind::File },
            ListEntry { name: "sub".to_string(), inode_id: 30, kind: InodeKind::Directory },
        ]
    );
    assert_eq!(names(&mut store, 1, 2), vec!["a", "b", "sub"]);
    assert_eq!(names(&mut store, 1, 3), vec!["b", "sub"]);
    assert_eq!(names(&mut store, 1, 4), vec!["sub"]);
    assert!(names(&mut store, 1, 5).is_empty());
    assert!(names(&mut store, 1, 77).is_empty());
    assert_eq!(names(&mut store, 30, 0), vec![".", ".."]);
}

#[test]
fn listing_fails_where_an_entry_has_no_inode() {
    let mut store = bootstrap();
    let dir = Directory::empty(ROOT_DIR).add_entry("ghost".to_string(), 999).unwrap();
    store.put(Record::Directory(dir));
    assert_eq!(store.execute(Operation::List { ino: 1, offset: 0 }), Err(FsError::NotFound));
    assert_eq!(store.execute(Operation::List { ino: 1, offset: 3 }), Ok(Reply::Listing(vec![])));
}

#[test]
fn listing_needs_a_directory() {
    let mut store = bootstrap();
    create(&mut store, 1, "f", 10).unwrap();
    assert_eq!(store.execute(Operation::List { ino: 11, offset: 0 }), Err(FsError::NotADirectory));
    assert_eq!(store.execute(Operation::List { ino: 99, offset: 0 }), Err(FsError::NotFound));
}

#[test]
fn attributes_of_the_root() {
    let mut store = bootstrap();
    let expected = Directory::empty(ROOT_DIR).get_entry_attributes(1);
    assert_eq!(store.execute(Operation::Attributes { ino: 1 }), Ok(Reply::Attributes(expected)));
    assert_eq!(expected.kind, InodeKind::Directory);
    assert_eq!(expected.nlink, 2);
    create(&mut store, 1, "x", 10).unwrap();
    match store.execute(Operation::Attributes { ino: 1 }) {
        Ok(Reply::Attributes(attr)) => {
            assert_eq!(attr.kind, InodeKind::Directory);
            assert_eq!(attr.nlink, 3);
            assert_eq!(attr.ino, 1);
        }
        other => panic!("no attributes: {:?}", other),
    }
}

#[test]
fn attributes_of_what_is_missing() {
    let mut store = bootstrap();
    assert_eq!(store.execute(Operation::Attributes { ino: 5 }), Err(FsError::NotFound));
    store.put(Record::Inode(Inode { id: 5, target: 6, kind: InodeKind::File }));
    assert_eq!(store.execute(Operation::Attributes { ino: 5 }), Err(FsError::NotFound));
    store.put(Record::File(File::empty(6)));
    assert_eq!(
        store.execute(Operation::Attributes { ino: 5 }),
        Ok(Reply::Attributes(File::empty(6).get_entry_attributes(5)))
    );
}

#[test]
fn symbolic_links_are_not_followed() {
    let mut store = bootstrap();
    store.put(Record::Link(Link { id: 8, target_inode: 1 }));
    store.put(Record::Inode(Inode { id: 7, target: 8, kind: InodeKind::Symlink }));
    assert_eq!(store.execute(Operation::Attributes { ino: 7 }), Err(FsError::Unimplemented));
    assert_eq!(store.execute(Operation::Open { ino: 7 }), Err(FsError::Unimplemented));
    assert_eq!(store.execute(Operation::List { ino: 7, offset: 0 }), Err(FsError::Unimplemented));
    assert_eq!(
        store.execute(Operation::Read { ino: 7, from: 0, length: 1 }),
        Err(FsError::Unimplemented)
    );
    assert_eq!(
        store.execute(Operation::Lookup { parent: 7, name: "x".to_string() }),
        Err(FsError::Unimplemented)
    );
    assert_eq!(create(&mut store, 7, "x", 50), Err(FsError::NotADirectory));
}

#[test]
fn create_tells_a_parent_that_is_no_directory_from_its_inode() {
    let mut store = bootstrap();
    let dangling = Inode { id: 7, target: 8, kind: InodeKind::File };
    store.put(Record::Inode(dangling));
    assert_eq!(create(&mut store, 7, "x", 50), Err(FsError::NotADirectory));
    assert_eq!(store.get(Key { table: Table::Inode, id: 7 }), Some(Record::Inode(dangling)));
    assert_eq!(store.get(Key { table: Table::File, id: 8 }), None);
    assert_eq!(store.get(Key { table: Table::Directory, id: 52 }), None);
    let link = Inode { id: 9, target: 10, kind: InodeKind::Symlink };
    store.put(Record::Inode(link));
    assert_eq!(create(&mut store, 9, "x", 60), Err(FsError::NotADirectory));
    assert_eq!(store.get(Key { table: Table::Inode, id: 9 }), Some(Record::Inode(link)));
    create(&mut store, 1, "f", 70).unwrap();
    assert_eq!(create(&mut store, 71, "x", 80), Err(FsError::NotADirectory));
    assert_eq!(
        store.get(Key { table: Table::Inode, id: 71 }),
        Some(Record::Inode(Inode { id: 71, target: 70, kind: InodeKind::File }))
    );
    assert_eq!(store.get(Key { table: Table::File, id: 70 }), Some(Record::File(File::empty(70))));
}

#[test]
fn lookup_failures() {
    let mut store = bootstrap();
    create(&mut store, 1, "f", 10).unwrap();
    assert_eq!(
        store.execute(Operation::Lookup { parent: 1, name: "g".to_string() }),
        Err(FsError::NotFound)
    );
    assert_eq!(
        store.execute(Operation::Lookup { parent: 11, name: "f".to_string() }),
        Err(FsError::NotADirectory)
    );
    assert_eq!(
        store.execute(Operation::Lookup { parent: 42, name: "f".to_string() }),
        Err(FsError::NotFound)
    );
}

#[test]
fn open_wants_a_file() {
    let mut store = bootstrap();
    create(&mut store, 1, "f", 10).unwrap();
    assert_eq!(store.execute(Operation::Open { ino: 11 }), Ok(Reply::Opened(0)));
    assert_eq!(store.execute(Operation::Open { ino: 1 }), Err(FsError::WrongKind));
    assert_eq!(store.execute(Operation::Open { ino: 12 }), Err(FsError::NotFound));
}

#[test]
fn create_refuses_a_name_that_exists() {
    let mut store = bootstrap();
    create(&mut store, 1, "x", 10).unwrap();
    assert_eq!(create(&mut store, 1, "x", 20), Err(FsError::AlreadyExists));
    assert_eq!(names(&mut store, 1, 0), vec![".", "..", "x"]);
    match store.execute(Operation::Lookup { parent: 1, name: "x".to_string() }) {
        Ok(Reply::Attributes(attr)) => assert_eq!(attr.ino, 11),
        other => panic!("not found: {:?}", other),
    }
}

#[test]
fn create_needs_a_directory_that_is_there() {
    let mut store = bootstrap();
    create(&mut store, 1, "f", 10).unwrap();
    assert_eq!(create(&mut store, 11, "g", 20), Err(FsError::NotADirectory));
    assert_eq!(create(&mut store, 77, "g", 30), Err(FsError::NotFound));
    assert_eq!(
        store.get(Key { table: Table::File, id: 30 }),
        Some(Record::File(File::empty(30)))
    );
    assert_eq!(
        store.get(Key { table: Table::Inode, id: 31 }),
        Some(Record::Inode(Inode { id: 31, target: 30, kind: InodeKind::File }))
    );
    assert_eq!(store.get(Key { table: Table::Directory, id: 32 }), None);
}

#[test]
fn create_copies_the_directory_and_repoints_the_parent() {
    let mut store = bootstrap();
    create(&mut store, 1, "f", 10).unwrap();
    assert_eq!(
        store.get(Key { table: Table::Inode, id: 1 }),
        Some(Record::Inode(Inode { id: 1, target: 12, kind: InodeKind::Directory }))
    );
    assert_eq!(
        store.get(Key { table: Table::Directory, id: ROOT_DIR }),
        Some(Record::Directory(Directory::empty(ROOT_DIR)))
    );
    assert_eq!(
        store.get(Key { table: Table::Directory, id: 12 }),
        Some(Record::Directory(Directory {
            id: 12,
            entries: vec![DirectoryEntry { name: "f".to_string(), inode_id: 11 }],
        }))
    );
}

#[test]
fn swapping_keeps_the_identity() {
    let mut store = bootstrap();
    store.put(Record::File(File::new_from_data(60, b"hello")));
    store.put(Record::Directory(Directory::empty(61)));
    store.put(Record::Inode(Inode { id: 9, target: 61, kind: InodeKind::Directory }));
    for (target, kind) in [
        (60, InodeKind::File),
        (61, InodeKind::Directory),
        (60, InodeKind::File),
    ] {
        let swapped = Inode { id: 9, target, kind: kind.clone() };
        assert_eq!(
            store.execute(Operation::SwapTarget { id: 9, target, kind: kind.clone() }),
            Ok(Reply::Swapped(swapped))
        );
        assert_eq!(store.get(Key { table: Table::Inode, id: 9 }), Some(Record::Inode(swapped)));
        match store.execute(Operation::Attributes { ino: 9 }) {
            Ok(Reply::Attributes(attr)) => {
                assert_eq!(attr.ino, 9);
                assert_eq!(attr.kind, kind);
            }
            other => panic!("no attributes: {:?}", other),
        }
    }
    match store.execute(Operation::Attributes { ino: 9 }) {
        Ok(Reply::Attributes(attr)) => assert_eq!(attr.size, 5),
        other => panic!("no attributes: {:?}", other),
    }
    assert_eq!(
        store.execute(Operation::SwapTarget { id: 10, target: 60, kind: InodeKind::File }),
        Err(FsError::NotFound)
    );
    assert_eq!(store.get(Key { table: Table::Inode, id: 10 }), None);
}

#[test]
fn written_content_is_read_back() {
    let mut store = bootstrap();
    create(&mut store, 1, "f", 10).unwrap();
    let data = pattern(10000);
    let written = store.execute(Operation::Write { ino: 11, file_id: 70, data: data.clone() });
    assert_eq!(written, Ok(Reply::Written(File::new_from_data(70, &data))));
    assert_eq!(
        store.get(Key { table: Table::Inode, id: 11 }),
        Some(Record::Inode(Inode { id: 11, target: 70, kind: InodeKind::File }))
    );
    let mut read = |offset: u64, length: u64| match store
        .execute(Operation::Read { ino: 11, from: offset, length })
    {
        Ok(Reply::Data(bytes)) => bytes,
        other => panic!("not read: {:?}", other),
    };
    assert_eq!(read(0, 10000), data);
    assert_eq!(read(0, u64::MAX), data);
    assert_eq!(read(4090, 20), &data[4090..4110]);
    assert_eq!(read(4096, 4096), &data[4096..8192]);
    assert_eq!(read(9990, 100), &data[9990..]);
    assert_eq!(read(1, 1), &data[1..2]);
    assert!(read(10000, 5).is_empty());
    assert!(read(20000, 5).is_empty());
    assert!(read(17, 0).is_empty());
    match store.execute(Operation::Attributes { ino: 11 }) {
        Ok(Reply::Attributes(attr)) => {
            assert_eq!(attr.size, 10000);
            assert_eq!(attr.blocks, 3);
        }
        other => panic!("no attributes: {:?}", other),
    }
}

#[test]
fn writing_nothing_leaves_an_empty_file() {
    let mut store = bootstrap();
    create(&mut store, 1, "f", 10).unwrap();
    store.execute(Operation::Write { ino: 11, file_id: 70, data: pattern(10) }).unwrap();
    store.execute(Operation::Write { ino: 11, file_id: 71, data: Vec::new() }).unwrap();
    assert_eq!(
        store.execute(Operation::Read { ino: 11, from: 0, length: 100 }),
        Ok(Reply::Data(Vec::new()))
    );
}

#[test]
fn write_and_read_want_a_file() {
    let mut store = bootstrap();
    assert_eq!(
        store.execute(Operation::Write { ino: 1, file_id: 70, data: pattern(10) }),
        Err(FsError::WrongKind)
    );
    assert_eq!(
        store.execute(Operation::Read { ino: 1, from: 0, length: 1 }),
        Err(FsError::WrongKind)
    );
    assert_eq!(
        store.execute(Operation::Write { ino: 3, file_id: 70, data: pattern(10) }),
        Err(FsError::NotFound)
    );
    assert_eq!(
        store.execute(Operation::Read { ino: 3, from: 0, length: 1 }),
        Err(FsError::NotFound)
    );
    assert_eq!(store.get(Key { table: Table::File, id: 70 }), None);
}

#[test]
fn damaged_content_is_not_read() {
    let mut store = bootstrap();
    create(&mut store, 1, "f", 10).unwrap();
    let data = pattern(5000);
    let file = match store.execute(Operation::Write { ino: 11, file_id: 70, data }) {
        Ok(Reply::Written(file)) => file,
        other => panic!("not written: {:?}", other),
    };
    let mut bytes = pattern(4096);
    bytes[7] ^= 1;
    store.put(Record::Chunk(ChunkData { id: file.chunks[0].id, bytes }));
    assert_eq!(
        store.execute(Operation::Read { ino: 11, from: 0, length: 10 }),
        Err(FsError::SerializationError)
    );
    assert_eq!(
        store.execute(Operation::Read { ino: 11, from: 4096, length: 10 }),
        Ok(Reply::Data(pattern(5000)[4096..4106].to_vec()))
    );
    store.put(Record::Chunk(ChunkData { id: file.chunks[0].id, bytes: pattern(4095) }));
    assert_eq!(
        store.execute(Operation::Read { ino: 11, from: 0, length: 10 }),
        Err(FsError::SerializationError)
    );
    let mut short = file.duplicate();
    short.chunks.pop();
    store.put(Record::File(short));
    assert_eq!(
        store.execute(Operation::Read { ino: 11, from: 0, length: 10 }),
        Err(FsError::SerializationError)
    );
}

#[test]
fn missing_chunks_are_not_found() {
    let mut store = bootstrap();
    store.put(Record::File(File::new_from_data(70, &pattern(100))));
    store.put(Record::Inode(Inode { id: 5, target: 70, kind: InodeKind::File }));
    assert_eq!(
        store.execute(Operation::Read { ino: 5, from: 0, length: 10 }),
        Err(FsError::NotFound)
    );
    assert_eq!(
        store.execute(Operation::Read { ino: 5, from: 100, length: 10 }),
        Ok(Reply::Data(Vec::new()))
    );
}

#[test]
fn operations_begin_with_the_inode() {
    match start(Operation::Attributes { ino: 4 }) {
        Step::Continue(_, request) => {
            assert_eq!(request, Request::Load(Key { table: Table::Inode, id: 4 }))
        }
        Step::Finished(outcome) => panic!("ended at once: {:?}", outcome),
    }
    match start(Operation::Create {
        parent: 1,
        name: "n".to_string(),
        file_id: 2,
        inode_id: 3,
        dir_id: 4,
    }) {
        Step::Continue(task, request) => {
            assert_eq!(request, Request::Store(Record::File(File::empty(2))));
            assert_eq!(
                task,
                Task::StoreFile {
                    parent: 1,
                    name: "n".to_string(),
                    dir_id: 4,
                    created: Created {
                        inode: Inode { id: 3, target: 2, kind: InodeKind::File },
                        file: File::empty(2),
                        attributes: File::empty(2).get_entry_attributes(3),
                    },
                }
            );
        }
        Step::Finished(outcome) => panic!("ended at once: {:?}", outcome),
    }
}

fn task_of(op: Operation) -> Task {
    match start(op) {
        Step::Continue(task, _) => task,
        Step::Finished(outcome) => panic!("ended at once: {:?}", outcome),
    }
}

fn outcome_of(step: Step) -> Result<Reply, FsError> {
    match step {
        Step::Finished(outcome) => outcome,
        Step::Continue(task, request) => panic!("goes on: {:?} {:?}", task, request),
    }
}

#[test]
fn failed_round_trips_end_the_operation() {
    let ops = || {
        vec![
            Operation::Attributes { ino: 1 },
            Operation::Open { ino: 1 },
            Operation::List { ino: 1, offset: 0 },
            Operation::Lookup { parent: 1, name: "n".to_string() },
            Operation::Read { ino: 1, from: 0, length: 1 },
            Operation::Write { ino: 1, file_id: 2, data: vec![1] },
            Operation::SwapTarget { id: 1, target: 2, kind: InodeKind::File },
            Operation::Create {
                parent: 1,
                name: "n".to_string(),
                file_id: 2,
                inode_id: 3,
                dir_id: 4,
            },
        ]
    };
    for op in ops() {
        assert_eq!(outcome_of(advance(task_of(op), Response::Failed)), Err(FsError::TransportError));
    }
    for op in ops() {
        let stores = matches!(op, Operation::Create { .. });
        let expected = if stores { FsError::TransportError } else { FsError::SerializationError };
        assert_eq!(outcome_of(advance(task_of(op), Response::Undecodable)), Err(expected));
    }
    for op in ops() {
        let stores = matches!(op, Operation::Create { .. });
        let expected = if stores { FsError::TransportError } else { FsError::NotFound };
        assert_eq!(outcome_of(advance(task_of(op), Response::Missing)), Err(expected));
    }
}

#[test]
fn records_of_the_wrong_shape_are_refused() {
    let task = || task_of(Operation::Attributes { ino: 1 });
    let wrong_id = Response::Found(Record::Inode(Inode { id: 2, target: 3, kind: InodeKind::File }));
    assert_eq!(outcome_of(advance(task(), wrong_id)), Err(FsError::SerializationError));
    let wrong_kind = Response::Found(Record::File(File::empty(1)));
    assert_eq!(outcome_of(advance(task(), wrong_kind)), Err(FsError::SerializationError));
    assert_eq!(outcome_of(advance(task(), Response::Stored)), Err(FsError::TransportError));
    let inode = Inode { id: 1, target: 3, kind: InodeKind::File };
    let deref = || match advance(task(), Response::Found(Record::Inode(inode))) {
        Step::Continue(task, request) => {
            assert_eq!(request, Request::Load(Key { table: Table::File, id: 3 }));
            task
        }
        Step::Finished(outcome) => panic!("ended: {:?}", outcome),
    };
    let other_file = Response::Found(Record::File(File::empty(4)));
    assert_eq!(outcome_of(advance(deref(), other_file)), Err(FsError::SerializationError));
    let directory = Response::Found(Record::Directory(Directory::empty(3)));
    assert_eq!(outcome_of(advance(deref(), directory)), Err(FsError::SerializationError));
    let right = Response::Found(Record::File(File::empty(3)));
    assert_eq!(
        outcome_of(advance(deref(), right)),
        Ok(Reply::Attributes(File::empty(3).get_entry_attributes(1)))
    );
}

#[test]
fn a_failed_write_ends_a_creation() {
    let mut store = bootstrap();
    let mut step = start(Operation::Create {
        parent: 1,
        name: "n".to_string(),
        file_id: 2,
        inode_id: 3,
        dir_id: 4,
    });
    for _ in 0..4 {
        step = step_once(&mut store, step);
    }
    let task = match step {
        Step::Continue(task, Request::Store(Record::Directory(dir))) => {
            assert_eq!(dir.id, 4);
            assert_eq!(dir.find_entry("n"), Some(3));
            task
        }
        other => panic!("not at the directory: {:?}", other),
    };
    assert_eq!(outcome_of(advance(task, Response::Failed)), Err(FsError::TransportError));
    assert_eq!(names(&mut store, 1, 0), vec![".", ".."]);
}

#[test]
fn concurrent_creates_can_lose_an_entry() {
    let mut store = bootstrap();
    let mut first = start(Operation::Create {
        parent: 1,
        name: "a".to_string(),
        file_id: 10,
        inode_id: 11,
        dir_id: 12,
    });
    let mut second = start(Operation::Create {
        parent: 1,
        name: "b".to_string(),
        file_id: 20,
        inode_id: 21,
        dir_id: 22,
    });
    for _ in 0..4 {
        first = step_once(&mut store, first);
        second = step_once(&mut store, second);
    }
    assert!(matches!(finish(&mut store, first), Ok(Reply::Created(_))));
    assert_eq!(names(&mut store, 1, 0), vec![".", "..", "a"]);
    assert!(matches!(finish(&mut store, second), Ok(Reply::Created(_))));
    assert_eq!(names(&mut store, 1, 0), vec![".", "..", "b"]);
    assert_eq!(
        store.execute(Operation::Lookup { parent: 1, name: "a".to_string() }),
        Err(FsError::NotFound)
    );
    assert!(matches!(
        store.execute(Operation::Attributes { ino: 11 }),
        Ok(Reply::Attributes(_))
    ));
}

#[test]
fn creates_one_after_the_other_keep_both_entries() {
    let mut store = bootstrap();
    create(&mut store, 1, "a", 10).unwrap();
    create(&mut store, 1, "b", 20).unwrap();
    assert_eq!(names(&mut store, 1, 0), vec![".", "..", "a", "b"]);
}

#[test]
fn store_answers_truthfully() {
    let mut store = MemoryStore::new();
    let key = Key { table: Table::Inode, id: 3 };
    assert_eq!(store.serve(Request::Load(key)), Response::Missing);
    assert_eq!(store.get(key), None);
    let inode = Inode { id: 3, target: 4, kind: InodeKind::Symlink };
    assert_eq!(store.serve(Request::Store(Record::Inode(inode))), Response::Stored);
    assert_eq!(store.serve(Request::Load(key)), Response::Found(Record::Inode(inode)));
    assert_eq!(Record::Inode(inode).key(), key);
    assert_eq!(store.get(Key { table: Table::Link, id: 3 }), None);
    let link = Link { id: 3, target_inode: 1 };
    store.put(Record::Link(link));
    assert_eq!(store.get(Key { table: Table::Link, id: 3 }), Some(Record::Link(link)));
    let chunk = ChunkData { id: 3, bytes: vec![1, 2, 3] };
    store.put(Record::Chunk(chunk.clone()));
    assert_eq!(store.get(Key { table: Table::Chunk, id: 3 }), Some(Record::Chunk(chunk)));
    assert_eq!(store.get(key), Some(Record::Inode(inode)));
    let later = Inode { id: 3, target: 9, kind: InodeKind::File };
    store.put(Record::Inode(later));
    assert_eq!(store.get(key), Some(Record::Inode(later)));
}

#[test]
fn keys_of_records() {
    assert_eq!(Key::of_inode(5), Key { table: Table::Inode, id: 5 });
    assert_eq!(Key::of_chunk(5), Key { table: Table::Chunk, id: 5 });
    let file = Inode { id: 1, target: 2, kind: InodeKind::File };
    let dir = Inode { id: 1, target: 2, kind: InodeKind::Directory };
    let link = Inode { id: 1, target: 2, kind: InodeKind::Symlink };
    assert_eq!(Key::of_target(&file), Key { table: Table::File, id: 2 });
    assert_eq!(Key::of_target(&dir), Key { table: Table::Directory, id: 2 });
    assert_eq!(Key::of_target(&link), Key { table: Table::Link, id: 2 });
    assert_eq!(Record::File(File::empty(8)).key(), Key { table: Table::File, id: 8 });
    assert_eq!(
        Record::Directory(Directory::empty(8)).key(),
        Key { table: Table::Directory, id: 8 }
    );
}

#[test]
fn inode_swap_target_overwrites_target_and_kind() {
    let mut inode = Inode { id: 4, target: 5, kind: InodeKind::File };
    inode.swap_target(6, InodeKind::Directory);
    assert_eq!(inode, Inode { id: 4, target: 6, kind: InodeKind::Directory });
}

#[test]
fn link_attributes() {
    let attr = Link { id: 1, target_inode: 2 }.get_entry_attributes(9);
    assert_eq!(attr.ino, 9);
    assert_eq!(attr.kind, InodeKind::Symlink);
    assert_eq!(attr.perm, 0o644);
    assert_eq!(attr.nlink, 1);
    assert_eq!(attr.size, 0);
}

#[test]
fn records_are_found_by_identifier() {
    let mut store = bootstrap();
    create(&mut store, 1, "f", 10).unwrap();
    let root = Inode::get_by_id(1, &store).unwrap();
    assert_eq!(root, Inode { id: 1, target: 12, kind: InodeKind::Directory });
    assert_eq!(Inode::get_by_id(2, &store), Err(FsError::NotFound));
    assert_eq!(root.get_target(&store), Ok((InodeKind::Directory, 12)));
    assert_eq!(
        root.get_attribute(&store),
        Ok(Directory::get_by_id(12, &store).unwrap().get_entry_attributes(1))
    );
    assert_eq!(Directory::get_by_id(12, &store).unwrap().find_entry("f"), Some(11));
    assert_eq!(Directory::get_by_id(13, &store), Err(FsError::NotFound));
    assert_eq!(File::get_by_id(10, &store), Ok(File::empty(10)));
    assert_eq!(File::get_by_id(12, &store), Err(FsError::NotFound));
    let file = Inode::get_by_id(11, &store).unwrap();
    assert_eq!(file.get_target(&store), Ok((InodeKind::File, 10)));
    assert_eq!(file.get_attribute(&store), Ok(File::empty(10).get_entry_attributes(11)));
    let link = Inode { id: 5, target: 6, kind: InodeKind::Symlink };
    assert_eq!(link.get_target(&store), Err(FsError::Unimplemented));
    assert_eq!(link.get_attribute(&store), Err(FsError::Unimplemented));
    let dangling = Inode { id: 5, target: 6, kind: InodeKind::File };
    assert_eq!(dangling.get_target(&store), Err(FsError::NotFound));
    assert_eq!(dangling.get_attribute(&store), Err(FsError::NotFound));
}

#[test]
fn a_creation_draws_its_identifiers() {
    let mut store = bootstrap();
    let op = File::create_new(1, "drawn".to_string());
    match &op {
        Operation::Create { parent, name, .. } => {
            assert_eq!(*parent, 1);
            assert_eq!(name, "drawn");
        }
        other => panic!("no creation: {:?}", other),
    }
    let created = match store.execute(op) {
        Ok(Reply::Created(created)) => created,
        other => panic!("not created: {:?}", other),
    };
    assert_eq!(created.inode.target, created.file.id);
    assert_eq!(created.inode.kind, InodeKind::File);
    assert_ne!(created.inode.id, ROOT_INODE);
    match store.execute(Operation::Lookup { parent: 1, name: "drawn".to_string() }) {
        Ok(Reply::Attributes(attr)) => assert_eq!(attr.ino, created.inode.id),
        other => panic!("not found: {:?}", other),
    }
}

#[test]
fn the_creation_that_repoints_last_decides_at_every_pause() {
    for pause in 4..7 {
        let mut store = bootstrap();
        let mut first = start(Operation::Create {
            parent: 1,
            name: "a".to_string(),
            file_id: 10,
            inode_id: 11,
            dir_id: 12,
        });
        for _ in 0..pause {
            first = step_once(&mut store, first);
        }
        assert!(matches!(create(&mut store, 1, "b", 20), Ok(Reply::Created(_))));
        assert_eq!(names(&mut store, 1, 0), vec![".", "..", "b"]);
        assert!(matches!(finish(&mut store, first), Ok(Reply::Created(_))));
        assert_eq!(names(&mut store, 1, 0), vec![".", "..", "a"]);
        assert_eq!(
            store.get(Key { table: Table::Directory, id: 12 }),
            Some(Record::Directory(Directory {
                id: 12,
                entries: vec![DirectoryEntry { name: "a".to_string(), inode_id: 11 }],
            }))
        );
        assert_eq!(
            store.get(Key { table: Table::Inode, id: 21 }),
            Some(Record::Inode(Inode { id: 21, target: 20, kind: InodeKind::File }))
        );
        assert_eq!(
            store.get(Key { table: Table::File, id: 20 }),
            Some(Record::File(File::empty(20)))
        );
    }
}

#[test]
fn the_root_stays_a_directory_through_creations() {
    let mut store = bootstrap();
    for (base, name) in [(10, "a"), (20, "b"), (30, "a"), (40, "c")] {
        let _ = create(&mut store, 1, name, base);
        let _ = create(&mut store, base + 1, name, base + 5);
        match store.execute(Operation::Attributes { ino: 1 }) {
            Ok(Reply::Attributes(attr)) => {
                assert_eq!(attr.kind, InodeKind::Directory);
                assert_eq!(attr.ino, 1);
            }
            other => panic!("no attributes: {:?}", other),
        }
    }
    assert_eq!(names(&mut store, 1, 0), vec![".", "..", "a", "b", "c"]);
}

use bytes::Bytes;

use aliyundrive_fuse::cache::ReadPlan;
use aliyundrive_fuse::drive::AliyunFile;
use aliyundrive_fuse::drive::FileType;
use aliyundrive_fuse::error::Error;
use aliyundrive_fuse::vfs::AliyunDriveFileSystem;
use aliyundrive_fuse::vfs::FileKind;
use aliyundrive_fuse::vfs::Inode;
use aliyundrive_fuse::vfs::ROOT_INODE;

const CHUNK: usize = 1048576;

fn folder(id: &str, name: &str) -> AliyunFile {
    AliyunFile {
        id: id.to_string(),
        name: name.to_string(),
        kind: FileType::Folder,
        size: 0,
        created_at: 1_600_000_000,
        updated_at: 1_600_000_100,
    }
}

fn file(id: &str, name: &str, size: u64) -> AliyunFile {
    AliyunFile {
        id: id.to_string(),
        name: name.to_string(),
        kind: FileType::File,
        size,
        created_at: 1_600_000_000,
        updated_at: 1_600_000_100,
    }
}

fn mounted() -> AliyunDriveFileSystem {
    let mut fs = AliyunDriveFileSystem::new(CHUNK, 1000, 1000);
    fs.init(999);
    fs
}

#[test]
fn inode_entries_collect_children_in_order() {
    let mut node = Inode::new(ROOT_INODE);
    assert_eq!(node.parent, ROOT_INODE);
    assert!(node.children.is_empty());
    node.add_child("a".to_string(), 2);
    node.add_child("b".to_string(), 3);
    assert_eq!(node.children, vec![("a".to_string(), 2), ("b".to_string(), 3)]);
}

#[test]
fn init_installs_the_root() {
    let fs = mounted();
    let attr = fs.getattr(ROOT_INODE).unwrap();
    assert_eq!(attr.ino, ROOT_INODE);
    assert_eq!(attr.size, 999);
    assert_eq!(attr.kind, FileKind::Directory);
    assert_eq!(attr.perm, 0o755);
    assert_eq!(attr.nlink, 2);
    assert_eq!(attr.uid, 1000);
    assert_eq!(attr.gid, 1000);
    assert_eq!(attr.blocks, 1);
    assert_eq!(attr.blksize, 4194304);
}

#[test]
fn tree_store_reads_see_the_root() {
    let mut fs = mounted();
    let root_file = fs.get_file(ROOT_INODE).expect("root record");
    assert_eq!(root_file.name, "root");
    assert_eq!(root_file.kind, FileType::Folder);
    assert_eq!(root_file.id, "");
    let root_inode = fs.get_inode(ROOT_INODE).expect("root entry");
    assert_eq!(root_inode.parent, 0);
    assert!(root_inode.children.is_empty());
    assert!(fs.get_file(9).is_none());
    assert!(fs.get_inode(9).is_none());
    fs.apply_listing(ROOT_INODE, vec![file("p-id", "photo.jpg", 1024)]).unwrap();
    let photo = fs.lookup(ROOT_INODE, &"photo.jpg".to_string()).unwrap();
    assert_eq!(fs.get_file(photo.ino).expect("photo record").size, 1024);
    assert_eq!(fs.get_inode(photo.ino).expect("photo entry").parent, ROOT_INODE);
}

#[test]
fn getattr_of_unknown_inode_is_no_entry() {
    let fs = mounted();
    assert_eq!(fs.getattr(99).unwrap_err(), Error::NoEntry);
    assert_eq!(Error::NoEntry.errno(), 2);
    assert_eq!(Error::ApiCallFailed.errno(), 5);
}

#[test]
fn lazy_lookup_populates_and_finds_a_child() {
    let mut fs = mounted();
    // The root has no children yet: a lookup first asks for its listing.
    let need = fs.lookup_prepare(ROOT_INODE).unwrap();
    assert_eq!(need, Some("".to_string()));
    fs.apply_listing(ROOT_INODE, vec![folder("docs-id", "docs"), file("p-id", "photo.jpg", 1024)])
        .unwrap();
    let attr = fs.lookup(ROOT_INODE, &"docs".to_string()).unwrap();
    assert_eq!(attr.kind, FileKind::Directory);
    assert_eq!(attr.perm, 0o755);
    assert_eq!(attr.nlink, 1);
    // The same attributes come back from getattr on the new inode.
    let again = fs.getattr(attr.ino).unwrap();
    assert_eq!(again, attr);
    // Once populated, a lookup needs no further listing.
    assert_eq!(fs.lookup_prepare(ROOT_INODE).unwrap(), None);
    let photo = fs.lookup(ROOT_INODE, &"photo.jpg".to_string()).unwrap();
    assert_eq!(photo.kind, FileKind::RegularFile);
    assert_eq!(photo.perm, 0o644);
    assert_eq!(photo.size, 1024);
    assert_eq!(photo.mtime_secs, 1_600_000_100);
    assert_eq!(photo.ctime_secs, 1_600_000_000);
    assert_eq!(photo.atime_secs, 0);
    assert_ne!(photo.ino, attr.ino);
}

#[test]
fn lookup_errors() {
    let mut fs = mounted();
    assert_eq!(fs.lookup(77, &"x".to_string()).unwrap_err(), Error::ParentNotFound);
    assert_eq!(fs.lookup_prepare(77).unwrap_err(), Error::ParentNotFound);
    fs.apply_listing(ROOT_INODE, vec![folder("docs-id", "docs")]).unwrap();
    assert_eq!(fs.lookup(ROOT_INODE, &"nope".to_string()).unwrap_err(), Error::ChildNotFound);
}

#[test]
fn paged_directory_emits_entries_in_server_order() {
    let mut fs = mounted();
    fs.apply_listing(ROOT_INODE, vec![folder("docs-id", "docs")]).unwrap();
    let docs = fs.lookup(ROOT_INODE, &"docs".to_string()).unwrap();

    assert_eq!(fs.readdir_prepare(docs.ino, 0).unwrap(), Some("docs-id".to_string()));
    assert_eq!(fs.readdir_prepare(docs.ino, 5).unwrap(), None);
    assert_eq!(fs.readdir_prepare(404, 0).unwrap_err(), Error::NoEntry);

    let mut listing: Vec<AliyunFile> = Vec::new();
    for i in 0..237 {
        listing.push(file(&format!("id{}", i), &format!("f{}", i), 10));
    }
    fs.apply_listing(docs.ino, listing).unwrap();
    let entries = fs.readdir_entries(docs.ino, 0).unwrap();
    assert_eq!(entries.len(), 239);
    assert_eq!(entries[0].0, docs.ino);
    assert_eq!(entries[0].2, ".".to_string());
    assert_eq!(entries[1].0, ROOT_INODE);
    assert_eq!(entries[1].2, "..".to_string());
    for i in 0..237 {
        assert_eq!(entries[i + 2].1, FileKind::RegularFile);
        assert_eq!(entries[i + 2].2, format!("f{}", i));
    }

    // A continuation emits children from the given index, without dots.
    let tail = fs.readdir_entries(docs.ino, 200).unwrap();
    assert_eq!(tail.len(), 37);
    assert_eq!(tail[0].2, "f200".to_string());
}

#[test]
fn two_readdirs_with_same_listing_agree() {
    let mut fs = mounted();
    fs.apply_listing(ROOT_INODE, vec![folder("a-id", "a"), folder("b-id", "b")]).unwrap();
    let first = fs.readdir_entries(ROOT_INODE, 0).unwrap();
    fs.apply_listing(ROOT_INODE, vec![folder("a-id", "a"), folder("b-id", "b")]).unwrap();
    let second = fs.readdir_entries(ROOT_INODE, 0).unwrap();
    assert_eq!(first.len(), second.len());
    for (x, y) in first.iter().zip(second.iter()) {
        assert_eq!(x.0, y.0);
        assert_eq!(x.2, y.2);
    }
}

#[test]
fn relisting_preserves_kept_children_and_removes_deleted_ones() {
    let mut fs = mounted();
    fs.apply_listing(ROOT_INODE, vec![folder("docs-id", "docs")]).unwrap();
    let docs = fs.lookup(ROOT_INODE, &"docs".to_string()).unwrap();
    fs.apply_listing(docs.ino, vec![file("a-id", "a", 1), file("b-id", "b", 2)]).unwrap();
    let a = fs.lookup(docs.ino, &"a".to_string()).unwrap();
    let b = fs.lookup(docs.ino, &"b".to_string()).unwrap();

    fs.apply_listing(docs.ino, vec![file("a-id", "a", 1), file("c-id", "c", 3)]).unwrap();
    let a_again = fs.lookup(docs.ino, &"a".to_string()).unwrap();
    assert_eq!(a_again.ino, a.ino);
    assert_eq!(fs.lookup(docs.ino, &"b".to_string()).unwrap_err(), Error::ChildNotFound);
    assert_eq!(fs.getattr(b.ino).unwrap_err(), Error::NoEntry);
    let c = fs.lookup(docs.ino, &"c".to_string()).unwrap();
    assert_ne!(c.ino, a.ino);
    assert_ne!(c.ino, b.ino);
}

#[test]
fn open_allocates_distinct_handles() {
    let mut fs = mounted();
    fs.apply_listing(ROOT_INODE, vec![file("p-id", "photo.jpg", 1024)]).unwrap();
    let photo = fs.lookup(ROOT_INODE, &"photo.jpg".to_string()).unwrap();
    let fh1 = fs.open(photo.ino).unwrap();
    let fh2 = fs.open(photo.ino).unwrap();
    assert_ne!(fh1, fh2);
    assert!(fh1 > 2);
    assert_eq!(fs.open(404).unwrap_err(), Error::NoEntry);
}

#[test]
fn read_hit_and_miss_follow_the_cache() {
    let mut fs = mounted();
    fs.apply_listing(ROOT_INODE, vec![file("big-id", "big", 5_000_000)]).unwrap();
    let big = fs.lookup(ROOT_INODE, &"big".to_string()).unwrap();
    let fh = fs.open(big.ino).unwrap();

    let (start, len, serve) = match fs.read(big.ino, fh, 0, 4096).unwrap() {
        ReadPlan::Fetch { file_id, start, len, serve } => {
            assert_eq!(file_id, "big-id");
            (start, len, serve)
        },
        _ => panic!("expected a fetch"),
    };
    assert_eq!((start, len, serve), (0, CHUNK, 4096));

    let mut chunk_bytes: Vec<u8> = Vec::with_capacity(len);
    for i in 0..len {
        chunk_bytes.push((i % 251) as u8);
    }
    let chunk = Bytes::from(chunk_bytes);
    let data = fs.read_apply(fh, start, chunk.clone(), serve);
    assert_eq!(data, chunk.slice(0..4096));

    match fs.read(big.ino, fh, 4096, 4096).unwrap() {
        ReadPlan::Hit(data) => assert_eq!(data, chunk.slice(4096..8192)),
        _ => panic!("expected a hit"),
    }

    match fs.read(big.ino, fh, 2_000_000, 4096).unwrap() {
        ReadPlan::Fetch { start, len, .. } => {
            assert_eq!(start, 2_000_000);
            assert_eq!(len, CHUNK);
        },
        _ => panic!("expected a fetch"),
    }
}

#[test]
fn read_at_or_past_end_returns_no_bytes() {
    let mut fs = mounted();
    fs.apply_listing(ROOT_INODE, vec![file("s-id", "small", 100)]).unwrap();
    let small = fs.lookup(ROOT_INODE, &"small".to_string()).unwrap();
    let fh = fs.open(small.ino).unwrap();
    match fs.read(small.ino, fh, 100, 4096).unwrap() {
        ReadPlan::Hit(data) => assert!(data.is_empty()),
        _ => panic!("expected empty bytes at end of file"),
    }
    match fs.read(small.ino, fh, 4000, 4096).unwrap() {
        ReadPlan::Hit(data) => assert!(data.is_empty()),
        _ => panic!("expected empty bytes past end of file"),
    }
}

#[test]
fn read_reaching_past_end_returns_exactly_the_tail() {
    let mut fs = mounted();
    fs.apply_listing(ROOT_INODE, vec![file("s-id", "small", 100)]).unwrap();
    let small = fs.lookup(ROOT_INODE, &"small".to_string()).unwrap();
    let fh = fs.open(small.ino).unwrap();
    // 30 bytes remain past offset 70; the size is clamped to them.
    let (start, len, serve) = match fs.read(small.ino, fh, 70, 4096).unwrap() {
        ReadPlan::Fetch { start, len, serve, .. } => (start, len, serve),
        _ => panic!("expected a fetch"),
    };
    assert_eq!((start, len, serve), (70, 30, 30));
    let data = fs.read_apply(fh, start, Bytes::from(vec![7u8; len]), serve);
    assert_eq!(data.len(), 30);
}

#[test]
fn release_then_read_is_no_entry() {
    let mut fs = mounted();
    fs.apply_listing(ROOT_INODE, vec![file("s-id", "small", 100)]).unwrap();
    let small = fs.lookup(ROOT_INODE, &"small".to_string()).unwrap();
    let fh = fs.open(small.ino).unwrap();
    fs.release(fh);
    assert_eq!(fs.read(small.ino, fh, 0, 16).unwrap_err(), Error::NoEntry);
}

#[test]
fn unknown_inode_read_is_no_entry() {
    let fs = mounted();
    assert_eq!(fs.read(1234, 3, 0, 16).unwrap_err(), Error::NoEntry);
}

#[test]
fn apply_listing_of_unknown_directory_is_no_entry() {
    let mut fs = mounted();
    assert_eq!(fs.apply_listing(55, vec![]).unwrap_err(), Error::NoEntry);
}

use koto::kfs::{create_dir, create_file, FileAttr, FileType, FsError, KotoFS, NodeKind, Timespec};

fn stamp_equal(a: &FileAttr) -> bool {
    a.atime == a.mtime && a.atime == a.ctime && a.atime == a.crtime
}

#[test]
fn init_holds_only_the_root() {
    let fs = KotoFS::init();
    assert_eq!(fs.root, 1);
    assert_eq!(fs.inodes.len(), 1);
    let root = &fs.inodes[&1];
    assert_eq!(root.inode, 1);
    assert_eq!(root.kind, NodeKind::Root);
    assert_eq!(root.name, "/");
    assert!(root.parent.is_none());
    assert!(root.children.is_empty());
    assert!(root.data.is_empty());
    let a = fs.getattr(1).unwrap();
    assert_eq!(a.ino, 1);
    assert_eq!(a.size, 0);
    assert_eq!(a.kind, FileType::Directory);
    assert_eq!(a.perm, 0o775);
    assert_eq!((a.nlink, a.uid, a.gid, a.rdev, a.flags, a.blocks), (2, 501, 20, 0, 0, 0));
    assert!(stamp_equal(&a));
    assert!(a.atime.sec > 1_000_000_000);
}

#[test]
fn attributes_of_new_nodes() {
    let f = create_file(7, 3, FileType::RegularFile);
    assert_eq!((f.ino, f.size, f.perm, f.kind), (7, 3, 0o644, FileType::RegularFile));
    assert!(stamp_equal(&f));
    let d = create_file(8, 0, FileType::Directory);
    assert_eq!(d.perm, 0o775);
    let s = create_file(9, 0, FileType::Symlink);
    assert_eq!(s.perm, 0o644);
    let dir = create_dir(10);
    assert_eq!((dir.ino, dir.size, dir.perm, dir.kind), (10, 0, 0o755, FileType::Directory));
    assert!(stamp_equal(&dir));
}

#[test]
fn missing_inodes_are_refused() {
    let mut fs = KotoFS::init();
    assert_eq!(fs.getattr(99), Err(FsError::NotFound));
    assert_eq!(fs.setattr(99), Err(FsError::AccessDenied));
    assert_eq!(fs.read(99), Err(FsError::AccessDenied));
    assert_eq!(fs.write(99, b"abc"), 3);
    assert_eq!(fs.inodes.len(), 1);
    assert_eq!(fs.lookup(1, "nothing"), None);
}

#[test]
fn create_files_a_new_node() {
    let mut fs = KotoFS::init();
    let f = fs.create(1, "a.txt").unwrap();
    assert_eq!((f.size, f.kind, f.perm), (0, FileType::RegularFile, 0o644));
    assert!(f.ino > 1_000_000_000);
    assert!(stamp_equal(&f));
    assert_eq!(fs.getattr(f.ino), Ok(f));
    assert_eq!(fs.setattr(f.ino), Ok(f));
    assert_eq!(fs.read(f.ino), Ok(&[][..]));
    assert_eq!(fs.lookup(1, "a.txt"), Some(f));
    assert_eq!(fs.lookup(1, "b.txt"), None);
    assert_eq!(fs.lookup(2, "a.txt"), None);
    let node = &fs.inodes[&f.ino];
    assert_eq!(node.parent, Some(1));
    assert_eq!(node.kind, NodeKind::File);
    assert_eq!(fs.inodes[&1].children, vec![f.ino]);
}

#[test]
fn create_without_parent_changes_nothing() {
    let mut fs = KotoFS::init();
    assert_eq!(fs.create(42, "x"), None);
    assert_eq!(fs.inodes.len(), 1);
    assert!(fs.inodes[&1].children.is_empty());
}

fn attr(ino: u64) -> FileAttr {
    let t = Timespec { sec: 5, nsec: 6 };
    FileAttr {
        ino,
        size: 0,
        blocks: 0,
        atime: t,
        mtime: t,
        ctime: t,
        crtime: t,
        kind: FileType::RegularFile,
        perm: 0o644,
        nlink: 2,
        uid: 501,
        gid: 20,
        rdev: 0,
        flags: 0,
    }
}

#[test]
fn create_at_files_under_the_given_inode() {
    let mut fs = KotoFS::init();
    assert_eq!(fs.create_at(1, "one", attr(100)), Some(attr(100)));
    assert_eq!(fs.create_at(100, "two", attr(200)), Some(attr(200)));
    assert_eq!(fs.create_at(300, "three", attr(400)), None);
    assert_eq!(fs.inodes.len(), 3);
    assert_eq!(fs.inodes[&1].children, vec![100]);
    assert_eq!(fs.inodes[&100].children, vec![200]);
    assert_eq!(fs.inodes[&200].parent, Some(100));
    assert_eq!(fs.inodes[&200].name, "two");
    assert_eq!(fs.lookup(100, "two"), Some(attr(200)));
    assert_eq!(fs.lookup(1, "two"), None);
}

#[test]
fn write_then_read() {
    let mut fs = KotoFS::init();
    fs.create_at(1, "f", attr(100));
    fs.create_at(1, "g", attr(101));
    assert_eq!(fs.write(100, b"hello"), 5);
    assert_eq!(fs.read(100), Ok(&b"hello"[..]));
    assert_eq!(fs.getattr(100).unwrap().size, 5);
    assert_eq!(fs.read(101), Ok(&[][..]));
    assert_eq!(fs.getattr(101).unwrap().size, 0);
    assert_eq!(fs.write(100, b"hi"), 2);
    assert_eq!(fs.read(100), Ok(&b"hi"[..]));
    assert_eq!(fs.getattr(100).unwrap().size, 2);
}

#[test]
fn readdir_lists_children() {
    let mut fs = KotoFS::init();
    fs.create_at(1, "f", attr(100));
    fs.create_at(1, "g", attr(101));
    fs.create_at(100, "h", attr(102));
    let es = fs.readdir(1, 0);
    assert_eq!(es.len(), 4);
    assert_eq!((es[0].ino, es[0].offset, es[0].kind, es[0].name.as_str()), (1, 0, FileType::Directory, "."));
    assert_eq!((es[1].ino, es[1].offset, es[1].kind, es[1].name.as_str()), (2, 1, FileType::Directory, ".."));
    let mut rest: Vec<(u64, String)> = es[2..].iter().map(|e| (e.ino, e.name.clone())).collect();
    assert_eq!((es[2].offset, es[3].offset), (2, 3));
    rest.sort();
    assert_eq!(rest, vec![(100, "f".to_string()), (101, "g".to_string())]);
    let sub = fs.readdir(100, 0);
    assert_eq!(sub.len(), 3);
    assert_eq!((sub[2].ino, sub[2].name.as_str(), sub[2].kind), (102, "h", FileType::RegularFile));
    assert!(fs.readdir(1, 1).is_empty());
    assert_eq!(fs.readdir(55, 0).len(), 2);
}

#[test]
fn every_node_stays_filed_under_its_inode() {
    let mut fs = KotoFS::init();
    fs.create(1, "x");
    fs.create_at(1, "y", attr(300));
    fs.write(300, b"data");
    for (k, n) in fs.inodes.iter() {
        assert_eq!(*k, n.inode);
        assert_eq!(*k, n.attr.ino);
    }
}

#[test]
fn create_leaves_other_nodes_alone() {
    let mut fs = KotoFS::init();
    fs.create_at(1, "a", attr(100));
    fs.create_at(1, "b", attr(101));
    fs.write(101, b"keep");
    fs.create_at(100, "c", attr(102));
    let b = &fs.inodes[&101];
    assert_eq!(b.data, b"keep".to_vec());
    assert_eq!(b.attr.size, 4);
    assert_eq!(b.name, "b");
    assert!(b.children.is_empty());
    assert_eq!(fs.inodes[&1].children, vec![100, 101]);
    assert_eq!(fs.inodes[&100].children, vec![102]);
}

#[test]
fn create_over_an_existing_inode_replaces_it() {
    let mut fs = KotoFS::init();
    assert_eq!(fs.create_at(1, "x", attr(1)), Some(attr(1)));
    assert_eq!(fs.inodes.len(), 1);
    let n = &fs.inodes[&1];
    assert_eq!(n.kind, NodeKind::File);
    assert_eq!(n.parent, Some(1));
    assert_eq!(n.name, "x");
    assert_eq!(fs.getattr(1), Ok(attr(1)));
    assert_eq!(fs.lookup(1, "x"), Some(attr(1)));
}

use std::collections::HashMap;
use vstd::prelude::*;
use vstd::std_specs::iter::IteratorSpec;

use crate::text::str_eq;

verus! {

broadcast use {vstd::std_specs::hash::group_hash_axioms, vstd::string::group_string_axioms};

/// What a node of the file system is.
#[derive(Debug, Clone, Copy, PartialEq, Eq, Structural)]
pub enum NodeKind {
    Root,
    Dir,
    File,
}

/// A point in time, in seconds and nanoseconds since the Unix epoch.
#[derive(Debug, Clone, Copy, PartialEq, Eq, Structural)]
pub struct Timespec {
    pub sec: i64,
    pub nsec: i32,
}

/// The kind of a file as the kernel sees it.
#[derive(Debug, Clone, Copy, PartialEq, Eq, Structural)]
pub enum FileType {
    NamedPipe,
    CharDevice,
    BlockDevice,
    Directory,
    RegularFile,
    Symlink,
    Socket,
}

/// The attributes that the file system reports for a node.
#[derive(Debug, Clone, Copy, PartialEq, Eq, Structural)]
pub struct FileAttr {
    pub ino: u64,
    pub size: u64,
    pub blocks: u64,
    pub atime: Timespec,
    pub mtime: Timespec,
    pub ctime: Timespec,
    pub crtime: Timespec,
    pub kind: FileType,
    pub perm: u16,
    pub nlink: u32,
    pub uid: u32,
    pub gid: u32,
    pub rdev: u32,
    pub flags: u32,
}

/// Why a request was refused: no such entry, or access denied.
#[derive(Debug, Clone, Copy, PartialEq, Eq, Structural)]
pub enum FsError {
    NotFound,
    AccessDenied,
}

/// A node of the tree.  `parent` is the inode number of the parent node
/// (`None` for the root), `children` the inode numbers of the nodes created
/// in it, in creation order.
#[derive(Debug, Clone)]
pub struct KotoNode {
    pub parent: Option<u64>,
    pub inode: u64,
    pub kind: NodeKind,
    pub children: Vec<u64>,
    pub name: String,
    pub data: Vec<u8>,
    pub attr: FileAttr,
}

pub struct NodeView {
    pub parent: Option<u64>,
    pub inode: u64,
    pub kind: NodeKind,
    pub children: Seq<u64>,
    pub name: Seq<char>,
    pub data: Seq<u8>,
    pub attr: FileAttr,
}

impl View for KotoNode {
    type V = NodeView;

    open spec fn view(&self) -> NodeView {
        NodeView {
            parent: self.parent,
            inode: self.inode,
            kind: self.kind,
            children: self.children@,
            name: self.name@,
            data: self.data@,
            attr: self.attr,
        }
    }
}

/// The file system: the inode number of its root and every node by inode
/// number.
#[derive(Debug)]
pub struct KotoFS {
    pub root: u64,
    pub inodes: HashMap<u64, KotoNode>,
}

/// The nodes of a file system, by inode number.
pub type FsView = Map<u64, NodeView>;

impl View for KotoFS {
    type V = FsView;

    open spec fn view(&self) -> FsView {
        self.inodes@.map_values(|n: KotoNode| n@)
    }
}

/// The attributes that a new node gets, but for its time stamps: no blocks,
/// two links, owner 501 and group 20, no device number or flags, and all four
/// time stamps equal.
pub open spec fn fresh_attr(a: FileAttr, ino: u64, size: u64, kind: FileType, perm: u16) -> bool {
    &&& a.ino == ino
    &&& a.size == size
    &&& a.blocks == 0
    &&& a.mtime == a.atime
    &&& a.ctime == a.atime
    &&& a.crtime == a.atime
    &&& a.kind == kind
    &&& a.perm == perm
    &&& a.nlink == 2
    &&& a.uid == 501
    &&& a.gid == 20
    &&& a.rdev == 0
    &&& a.flags == 0
}

/// The permissions of a new node of a kind: `0o775` for a directory,
/// `0o644` for anything else.
pub open spec fn default_perm(kind: FileType) -> u16 {
    if kind == FileType::Directory {
        0o775
    } else {
        0o644
    }
}

/// `time::now().to_timespec()`: the current time.  Nothing is promised of the
/// value, which depends on the clock.
#[verifier::external_body]
fn now() -> (t: Timespec) {
    let t = time::now().to_timespec();
    Timespec { sec: t.sec, nsec: t.nsec }
}

/// The attributes of a new node of kind `ftype`, stamped with the current
/// time.
pub fn create_file(ino: u64, size: u64, ftype: FileType) -> (r: FileAttr)
    ensures
        fresh_attr(r, ino, size, ftype, default_perm(ftype)),
{
    let t = now();
    FileAttr {
        ino: ino,
        size: size,
        blocks: 0,
        atime: t,
        mtime: t,
        ctime: t,
        crtime: t,
        kind: ftype,
        perm: match ftype {
            FileType::Directory => 0o775,
            _ => 0o644,
        },
        nlink: 2,
        uid: 501,
        gid: 20,
        rdev: 0,
        flags: 0,
    }
}

/// The attributes of a new, empty directory with permissions `0o755`,
/// stamped with the current time.
pub fn create_dir(ino: u64) -> (r: FileAttr)
    ensures
        fresh_attr(r, ino, 0, FileType::Directory, 0o755),
{
    let t = now();
    FileAttr {
        ino: ino,
        size: 0,
        blocks: 0,
        atime: t,
        mtime: t,
        ctime: t,
        crtime: t,
        kind: FileType::Directory,
        perm: 0o755,
        nlink: 2,
        uid: 501,
        gid: 20,
        rdev: 0,
        flags: 0,
    }
}

/// `getattr`: the attributes of node `ino`, or `NotFound`.
pub open spec fn getattr_spec(m: FsView, ino: u64) -> Result<FileAttr, FsError> {
    if m.contains_key(ino) {
        Ok(m[ino].attr)
    } else {
        Err(FsError::NotFound)
    }
}

/// What `getattr` may answer: `NotFound` when no node is filed under `ino`
/// or no node carries inode number `ino`; else the attributes of a node that
/// carries it.
pub open spec fn getattr_ok(m: FsView, ino: u64, r: Result<FileAttr, FsError>) -> bool {
    match r {
        Ok(a) => m.contains_key(ino) && exists|k: u64|
            m.contains_key(k) && m[k].inode == ino && #[trigger] m[k].attr == a,
        Err(e) => e == FsError::NotFound && (!m.contains_key(ino) || forall|k: u64|
            #[trigger] m.contains_key(k) ==> m[k].inode != ino),
    }
}

/// `setattr`: changes nothing, and answers with the attributes of node
/// `ino`, or `AccessDenied`.
pub open spec fn setattr_spec(m: FsView, ino: u64) -> Result<FileAttr, FsError> {
    if m.contains_key(ino) {
        Ok(m[ino].attr)
    } else {
        Err(FsError::AccessDenied)
    }
}

/// `read`: the whole content of node `ino`, or `AccessDenied`.
pub open spec fn read_spec(m: FsView, ino: u64) -> Result<Seq<u8>, FsError> {
    if m.contains_key(ino) {
        Ok(m[ino].data)
    } else {
        Err(FsError::AccessDenied)
    }
}

/// `write`: the content of node `ino` becomes `d` and its size the length of
/// `d`; with no such node nothing changes.
pub open spec fn write_spec(m: FsView, ino: u64, d: Seq<u8>) -> FsView {
    if m.contains_key(ino) {
        let n = m[ino];
        m.insert(
            ino,
            NodeView { data: d, attr: FileAttr { size: d.len() as u64, ..n.attr }, ..n },
        )
    } else {
        m
    }
}

/// The node that `create` files under `parent`.
pub open spec fn new_file_node(parent: NodeView, name: Seq<char>, attr: FileAttr) -> NodeView {
    NodeView {
        parent: Some(parent.inode),
        inode: attr.ino,
        kind: NodeKind::File,
        children: Seq::empty(),
        name: name,
        data: Seq::empty(),
        attr: attr,
    }
}

/// `create`: with a node `parent`, the new node's inode number joins the
/// parent's children, and then the new file (named `name`, empty, with
/// attributes `attr`) is filed under `attr.ino`, replacing any node filed
/// there.  With no node `parent` nothing changes.
pub open spec fn create_spec(m: FsView, parent: u64, name: Seq<char>, attr: FileAttr) -> FsView {
    if m.contains_key(parent) {
        let p = m[parent];
        m.insert(parent, NodeView { children: p.children.push(attr.ino), ..p }).insert(
            attr.ino,
            new_file_node(p, name, attr),
        )
    } else {
        m
    }
}

/// One entry of a directory listing: inode number, offset of the entry, kind
/// and name.
#[derive(Debug, Clone)]
pub struct DirEntry {
    pub ino: u64,
    pub offset: i64,
    pub kind: FileType,
    pub name: String,
}

pub struct EntryView {
    pub ino: u64,
    pub offset: i64,
    pub kind: FileType,
    pub name: Seq<char>,
}

impl View for DirEntry {
    type V = EntryView;

    open spec fn view(&self) -> EntryView {
        EntryView { ino: self.ino, offset: self.offset, kind: self.kind, name: self.name@ }
    }
}

/// Node `k` is filed in directory `ino`.
pub open spec fn is_child(m: FsView, k: u64, ino: u64) -> bool {
    m.contains_key(k) && m[k].parent == Some(ino)
}

/// The listing entry of node `n` at `offset`.
pub open spec fn child_entry(n: NodeView, offset: int) -> EntryView {
    EntryView { ino: n.attr.ino, offset: offset as i64, kind: n.attr.kind, name: n.name }
}

/// The entry `.`: inode 1 at offset 0.
pub open spec fn dot_entry() -> EntryView {
    EntryView { ino: 1, offset: 0, kind: FileType::Directory, name: seq!['.'] }
}

/// The entry `..`: inode 2 at offset 1.
pub open spec fn dotdot_entry() -> EntryView {
    EntryView { ino: 2, offset: 1, kind: FileType::Directory, name: seq!['.', '.'] }
}

/// `readdir`: from an offset above 0, nothing; else `.` (inode 1, offset
/// 0) and `..` (inode 2, offset 1), then one entry for each node filed in
/// directory `ino`, each exactly once, at offsets 2, 3, ...  The order of
/// those nodes is that in which the hash map is walked.
pub open spec fn readdir_ok(m: FsView, ino: u64, offset: i64, es: Seq<EntryView>) -> bool {
    if offset > 0 {
        es.len() == 0
    } else {
        &&& 2 <= es.len() < i64::MAX
        &&& es[0] == dot_entry()
        &&& es[1] == dotdot_entry()
        &&& exists|ks: Seq<u64>|
            {
                &&& ks.len() + 2 == es.len()
                &&& ks.no_duplicates()
                &&& forall|k: u64| ks.contains(k) <==> is_child(m, k, ino)
                &&& forall|j: int| 0 <= j < ks.len() ==> es[j + 2] == child_entry(m[#[trigger] ks[j]], j + 2)
            }
    }
}

/// Node `k` is named `name` and filed in directory `parent`.
pub open spec fn is_named_child(m: FsView, k: u64, parent: u64, name: Seq<char>) -> bool {
    &&& m.contains_key(k)
    &&& m[k].parent == Some(parent)
    &&& m[k].name == name
}

/// A node with no parent is the root.
pub open spec fn parentless_is_root(m: FsView, root: u64) -> bool {
    forall|k: u64| #[trigger] m.contains_key(k) && m[k].parent is None ==> k == root
}

/// Every node is filed under its own inode number, which its attributes
/// repeat.
pub open spec fn fs_wf(m: FsView) -> bool {
    forall|k: u64| #[trigger] m.contains_key(k) ==> m[k].inode == k && m[k].attr.ino == k
}

impl KotoFS {
    pub open spec fn wf(&self) -> bool {
        fs_wf(self@)
    }

    /// A file system that holds only its root: inode 1, named `/`, with the
    /// attributes of an empty directory.
    pub fn init() -> (r: KotoFS)
        ensures
            r.wf(),
            parentless_is_root(r@, r.root),
            r.root == 1,
            r@.dom() == set![1u64],
            r@[1].parent is None,
            r@[1].inode == 1,
            r@[1].kind == NodeKind::Root,
            r@[1].children == Seq::<u64>::empty(),
            r@[1].name == seq!['/'],
            r@[1].data == Seq::<u8>::empty(),
            fresh_attr(r@[1].attr, 1, 0, FileType::Directory, 0o775),
    {
        let name = "/".to_string();
        proof {
            reveal_strlit("/");
        }
        let root = KotoNode {
            inode: 1,
            kind: NodeKind::Root,
            children: Vec::new(),
            name: name,
            data: Vec::new(),
            parent: None,
            attr: create_file(1, 0, FileType::Directory),
        };
        let mut inodes: HashMap<u64, KotoNode> = HashMap::new();
        inodes.insert(1, root);
        let r = KotoFS { inodes: inodes, root: 1 };
        assert(r@.dom() =~= set![1u64]);
        r
    }

    /// The attributes of node `ino`: `NotFound` when no node is filed under
    /// `ino`, else the attributes of a node whose inode number is `ino`
    /// (`NotFound` if there is none).  In a well-formed file system that is
    /// node `ino` itself.
    pub fn getattr(&self, ino: u64) -> (r: Result<FileAttr, FsError>)
        ensures
            getattr_ok(self@, ino, r),
    {
        if self.inodes.get(&ino).is_none() {
            return Err(FsError::NotFound);
        }
        let ghost m = self@;
        let ghost keys = vstd::std_specs::hash::spec_keys_iter(&self.inodes).remaining().unref();
        let ghost mut done: Seq<u64> = Seq::empty();
        for k in it: self.inodes.keys()
            invariant
                m == self@,
                m.contains_key(ino),
                keys == vstd::std_specs::hash::spec_keys_iter(&self.inodes).remaining().unref(),
                it.seq().unref() == keys,
                done == keys.take(it.index()),
                forall|i: int| 0 <= i < done.len() ==> m[#[trigger] done[i]].inode != ino,
        {
            proof {
                assert(keys.contains(*k)) by {
                    assert(keys[it.index()] == *k);
                }
            }
            let n = self.inodes.get(k).unwrap();
            proof {
                assert(self.inodes@[*k] == *n);
                assert(m[*k] == n@);
            }
            if n.inode == ino {
                proof {
                    assert(m.contains_key(*k) && m[*k].inode == ino && m[*k].attr == n.attr);
                }
                return Ok(n.attr);
            }
            proof {
                done = done.push(*k);
                assert(done =~= keys.take(it.index() + 1));
            }
        }
        proof {
            assert(done =~= keys);
            assert forall|k: u64| m.contains_key(k) implies #[trigger] m[k].inode != ino by {
                assert(m.dom() =~= self.inodes@.dom());
                assert(keys.to_set().contains(k));
                let i = choose|i: int| 0 <= i < keys.len() && keys[i] == k;
                assert(done[i] == k);
            }
        }
        Err(FsError::NotFound)
    }

    /// Changes nothing; answers with the attributes of node `ino`, or
    /// `AccessDenied`.
    pub fn setattr(&self, ino: u64) -> (r: Result<FileAttr, FsError>)
        ensures
            r == setattr_spec(self@, ino),
    {
        match self.inodes.get(&ino) {
            Some(n) => Ok(n.attr),
            None => Err(FsError::AccessDenied),
        }
    }

    /// The whole content of node `ino`, or `AccessDenied`.
    pub fn read(&self, ino: u64) -> (r: Result<&[u8], FsError>)
        ensures
            match r {
                Ok(d) => read_spec(self@, ino) == Ok::<Seq<u8>, FsError>(d@),
                Err(e) => read_spec(self@, ino) == Err::<Seq<u8>, FsError>(e),
            },
    {
        match self.inodes.get(&ino) {
            Some(n) => Ok(n.data.as_slice()),
            None => Err(FsError::AccessDenied),
        }
    }

    /// Replaces the content of node `ino` with `data` and sets its size; with
    /// no such node nothing changes.  Gives the number of bytes taken, the
    /// length of `data` as a `u32`.
    pub fn write(&mut self, ino: u64, data: &[u8]) -> (r: u32)
        ensures
            final(self)@ == write_spec(old(self)@, ino, data@),
            final(self).root == old(self).root,
            r == data@.len() as u32,
    {
        let length: usize = data.len();
        if let Some(mut n) = self.inodes.remove(&ino) {
            n.attr.size = data.len() as u64;
            n.data = vstd::slice::slice_to_vec(data);
            self.inodes.insert(ino, n);
            proof {
                let old_n = old(self)@[ino];
                assert(self@ =~= write_spec(old(self)@, ino, data@));
            }
        } else {
            assert(self@ =~= old(self)@);
        }
        length as u32
    }

    /// Lists directory `ino` from `offset`.
    pub fn readdir(&self, ino: u64, offset: i64) -> (r: Vec<DirEntry>)
        requires
            self@.dom().len() < i64::MAX - 2,
        ensures
            readdir_ok(self@, ino, offset, r@.map_values(|e: DirEntry| e@)),
    {
        let mut entries: Vec<DirEntry> = Vec::new();
        if offset > 0 {
            assert(entries@.map_values(|e: DirEntry| e@) =~= Seq::<EntryView>::empty());
            return entries;
        }
        let dot = ".".to_string();
        let dotdot = "..".to_string();
        proof {
            reveal_strlit(".");
            reveal_strlit("..");
            assert(dot@ =~= seq!['.']);
            assert(dotdot@ =~= seq!['.', '.']);
        }
        entries.push(DirEntry { ino: 1, offset: 0, kind: FileType::Directory, name: dot });
        entries.push(DirEntry { ino: 2, offset: 1, kind: FileType::Directory, name: dotdot });
        let mut reply_add_offset: i64 = 2;
        let ghost m = self@;
        let ghost keys = vstd::std_specs::hash::spec_keys_iter(&self.inodes).remaining().unref();
        let ghost mut done: Seq<u64> = Seq::empty();
        let ghost mut ks: Seq<u64> = Seq::empty();
        proof {
            assert(m.dom() =~= self.inodes@.dom());
            assert(keys.len() == m.dom().len());
        }
        for k in it: self.inodes.keys()
            invariant
                m == self@,
                m.dom().len() < i64::MAX - 2,
                keys == vstd::std_specs::hash::spec_keys_iter(&self.inodes).remaining().unref(),
                keys.len() == m.dom().len(),
                keys.no_duplicates(),
                it.seq().unref() == keys,
                done == keys.take(it.index()),
                entries@.len() == ks.len() + 2,
                reply_add_offset == ks.len() + 2,
                ks.len() <= done.len(),
                entries@[0]@ == dot_entry(),
                entries@[1]@ == dotdot_entry(),
                ks.no_duplicates(),
                forall|j: int| 0 <= j < ks.len() ==> is_child(m, #[trigger] ks[j], ino),
                forall|j: int| 0 <= j < ks.len() ==> done.contains(#[trigger] ks[j]),
                forall|i: int| 0 <= i < done.len() && is_child(m, #[trigger] done[i], ino) ==> ks.contains(done[i]),
                forall|j: int| 0 <= j < ks.len() ==> entries@[j + 2]@ == child_entry(m[#[trigger] ks[j]], j + 2),
        {
            let ghost old_ks = ks;
            proof {
                assert(keys.contains(*k)) by {
                    assert(keys[it.index()] == *k);
                }
                assert(!done.contains(*k)) by {
                    if done.contains(*k) {
                        let i = choose|i: int| 0 <= i < done.len() && done[i] == *k;
                        assert(keys[i] == keys[it.index()]);
                    }
                }
            }
            let n = self.inodes.get(k).unwrap();
            proof {
                assert(self.inodes@[*k] == *n);
                assert(m[*k] == n@);
            }
            if let Some(parent_inode) = n.parent {
                if parent_inode == ino {
                    let attr = n.attr;
                    let name = n.name.clone();
                    entries.push(DirEntry { ino: attr.ino, offset: reply_add_offset, kind: attr.kind, name: name });
                    reply_add_offset = reply_add_offset + 1;
                    proof {
                        ks = ks.push(*k);
                    }
                }
            }
            proof {
                let old_done = done;
                done = done.push(*k);
                assert(done =~= keys.take(it.index() + 1));
                assert forall|j: int| 0 <= j < ks.len() implies done.contains(#[trigger] ks[j]) by {
                    if ks[j] == *k {
                        assert(done[old_done.len() as int] == *k);
                    } else {
                        let i = choose|i: int| 0 <= i < old_done.len() && old_done[i] == ks[j];
                        assert(done[i] == ks[j]);
                    }
                }
                assert forall|i: int| 0 <= i < done.len() && is_child(m, #[trigger] done[i], ino) implies ks.contains(done[i]) by {
                    if i < old_done.len() {
                        assert(done[i] == old_done[i]);
                        assert(old_ks.contains(old_done[i]));
                        let j = choose|j: int| 0 <= j < old_ks.len() && old_ks[j] == old_done[i];
                        assert(ks[j] == old_ks[j]);
                    } else {
                        assert(done[i] == *k);
                        assert(ks[ks.len() - 1] == *k);
                    }
                }
            }
        }
        proof {
            assert(done =~= keys);
            let es = entries@.map_values(|e: DirEntry| e@);
            assert forall|k: u64| ks.contains(k) <==> is_child(m, k, ino) by {
                if is_child(m, k, ino) {
                    assert(keys.to_set().contains(k));
                    let i = choose|i: int| 0 <= i < keys.len() && keys[i] == k;
                    assert(done[i] == k);
                }
                if ks.contains(k) {
                    let j = choose|j: int| 0 <= j < ks.len() && ks[j] == k;
                    assert(is_child(m, ks[j], ino));
                }
            }
            assert forall|j: int| 0 <= j < ks.len() implies es[j + 2] == child_entry(m[#[trigger] ks[j]], j + 2) by {
                assert(entries@[j + 2]@ == child_entry(m[ks[j]], j + 2));
            }
            assert(es[0] == entries@[0]@);
            assert(es[1] == entries@[1]@);
        }
        entries
    }

    /// The attributes of a node named `name` in directory `parent`, or
    /// `None` when there is none.  Where several nodes fit, which one answers
    /// depends on the order in which the hash map is walked.
    pub fn lookup(&self, parent: u64, name: &str) -> (r: Option<FileAttr>)
        ensures
            r is None <==> !exists|k: u64| is_named_child(self@, k, parent, name@),
            r matches Some(a) ==> exists|k: u64|
                is_named_child(self@, k, parent, name@) && #[trigger] self@[k].attr == a,
    {
        let ghost m = self@;
        let ghost keys = vstd::std_specs::hash::spec_keys_iter(&self.inodes).remaining().unref();
        let ghost mut done: Seq<u64> = Seq::empty();
        for k in it: self.inodes.keys()
            invariant
                m == self@,
                keys == vstd::std_specs::hash::spec_keys_iter(&self.inodes).remaining().unref(),
                it.seq().unref() == keys,
                done == keys.take(it.index()),
                forall|i: int| 0 <= i < done.len() ==> !is_named_child(m, #[trigger] done[i], parent, name@),
        {
            proof {
                assert(keys.contains(*k)) by {
                    assert(keys[it.index()] == *k);
                }
            }
            let n = self.inodes.get(k).unwrap();
            if let Some(parent_inode) = n.parent {
                if parent_inode == parent && str_eq(name, n.name.as_str()) {
                    proof {
                        assert(self.inodes@[*k] == *n);
                        assert(m[*k] == n@);
                        assert(is_named_child(m, *k, parent, name@));
                        assert(self@[*k].attr == n.attr);
                    }
                    return Some(n.attr);
                }
            }
            proof {
                done = done.push(*k);
                assert(done =~= keys.take(it.index() + 1));
            }
        }
        proof {
            assert(done =~= keys);
            assert forall|k: u64| !is_named_child(m, k, parent, name@) by {
                if m.contains_key(k) {
                    assert(keys.to_set().contains(k));
                    let i = choose|i: int| 0 <= i < keys.len() && keys[i] == k;
                    assert(done[i] == k);
                }
            }
        }
        None
    }

    /// Files a new, empty file named `name` with attributes `attr` under
    /// `attr.ino` in directory `parent`, and answers with `attr`; `None` when
    /// there is no node `parent`.
    pub fn create_at(&mut self, parent: u64, name: &str, attr: FileAttr) -> (r: Option<FileAttr>)
        ensures
            final(self)@ == create_spec(old(self)@, parent, name@, attr),
            final(self).root == old(self).root,
            r == if old(self)@.contains_key(parent) { Some(attr) } else { None::<FileAttr> },
    {
        let inode: u64 = attr.ino;
        if let Some(mut parent_node) = self.inodes.remove(&parent) {
            let node = KotoNode {
                parent: Some(parent_node.inode),
                inode: inode,
                kind: NodeKind::File,
                children: Vec::new(),
                name: name.to_string(),
                data: Vec::new(),
                attr: attr,
            };
            parent_node.children.push(inode);
            self.inodes.insert(parent, parent_node);
            self.inodes.insert(inode, node);
            proof {
                assert(self@ =~= create_spec(old(self)@, parent, name@, attr));
            }
            Some(attr)
        } else {
            assert(self@ =~= old(self)@);
            None
        }
    }

    /// Creates an empty file named `name` in directory `parent`.  Its inode
    /// number is the current time in seconds, and its attributes are those
    /// of a new regular file stamped with the current time; answers with
    /// them, or `None` when there is no node `parent`.
    pub fn create(&mut self, parent: u64, name: &str) -> (r: Option<FileAttr>)
        ensures
            final(self).root == old(self).root,
            exists|attr: FileAttr|
                {
                    &&& fresh_attr(attr, attr.ino, 0, FileType::RegularFile, 0o644)
                    &&& final(self)@ == create_spec(old(self)@, parent, name@, attr)
                    &&& r == if old(self)@.contains_key(parent) {
                        Some(attr)
                    } else {
                        None::<FileAttr>
                    }
                },
    {
        let inode: u64 = now().sec as u64;
        let f = create_file(inode, 0, FileType::RegularFile);
        self.create_at(parent, name, f)
    }
}

/// In a well-formed file system `getattr` has one answer: the attributes of
/// node `ino`, or `NotFound`.
pub proof fn law_getattr_well_formed(m: FsView, ino: u64, r: Result<FileAttr, FsError>)
    requires
        fs_wf(m),
    ensures
        getattr_ok(m, ino, r) <==> r == getattr_spec(m, ino),
{
    if m.contains_key(ino) {
        assert(m[ino].inode == ino);
        if r == getattr_spec(m, ino) {
            assert(m[ino].attr == m[ino].attr);
        }
        if getattr_ok(m, ino, r) {
            if let Ok(a) = r {
                let k = choose|k: u64| m.contains_key(k) && m[k].inode == ino && #[trigger] m[k].attr == a;
                assert(k == ino);
            }
        }
    }
}

/// Creating a file keeps every node filed under its own inode number.
pub proof fn law_create_keeps_wf(m: FsView, parent: u64, name: Seq<char>, attr: FileAttr)
    requires
        fs_wf(m),
    ensures
        fs_wf(create_spec(m, parent, name, attr)),
{
}

/// Creating a file keeps the root the only node without a parent: a new
/// file always has one.
pub proof fn law_create_keeps_root_only(m: FsView, root: u64, parent: u64, name: Seq<char>, attr: FileAttr)
    requires
        parentless_is_root(m, root),
    ensures
        parentless_is_root(create_spec(m, parent, name, attr), root),
{
}

/// Writing keeps the root the only node without a parent.
pub proof fn law_write_keeps_root_only(m: FsView, root: u64, ino: u64, d: Seq<u8>)
    requires
        parentless_is_root(m, root),
    ensures
        parentless_is_root(write_spec(m, ino, d), root),
{
}

/// Writing keeps every node filed under its own inode number.
pub proof fn law_write_keeps_wf(m: FsView, ino: u64, d: Seq<u8>)
    requires
        fs_wf(m),
    ensures
        fs_wf(write_spec(m, ino, d)),
{
}

/// A read after a write gives back what was written, and the size of the
/// file is then the length of the data.
pub proof fn law_read_after_write(m: FsView, ino: u64, d: Seq<u8>)
    requires
        m.contains_key(ino),
    ensures
        read_spec(write_spec(m, ino, d), ino) == Ok::<Seq<u8>, FsError>(d),
        getattr_spec(write_spec(m, ino, d), ino) == Ok::<FileAttr, FsError>(
            FileAttr { size: d.len() as u64, ..m[ino].attr },
        ),
{
}

/// A write touches no other node: reads and attributes of every other inode
/// stay as they were.
pub proof fn law_write_isolated(m: FsView, ino: u64, other: u64, d: Seq<u8>)
    requires
        other != ino,
    ensures
        read_spec(write_spec(m, ino, d), other) == read_spec(m, other),
        getattr_spec(write_spec(m, ino, d), other) == getattr_spec(m, other),
        setattr_spec(write_spec(m, ino, d), other) == setattr_spec(m, other),
{
}

/// A write to an inode that does not exist changes nothing, and a read of it
/// is refused.
pub proof fn law_write_missing(m: FsView, ino: u64, d: Seq<u8>)
    requires
        !m.contains_key(ino),
    ensures
        write_spec(m, ino, d) == m,
        read_spec(m, ino) == Err::<Seq<u8>, FsError>(FsError::AccessDenied),
        getattr_spec(m, ino) == Err::<FileAttr, FsError>(FsError::NotFound),
{
}

/// A created file answers `getattr` with the attributes it was created with
/// and reads as empty.
pub proof fn law_create_then_getattr(m: FsView, parent: u64, name: Seq<char>, attr: FileAttr)
    requires
        m.contains_key(parent),
    ensures
        getattr_spec(create_spec(m, parent, name, attr), attr.ino) == Ok::<FileAttr, FsError>(attr),
        read_spec(create_spec(m, parent, name, attr), attr.ino) == Ok::<Seq<u8>, FsError>(
            Seq::empty(),
        ),
{
}

/// A created file is found by `lookup` of its name in its directory, and is
/// listed by `readdir` of that directory.
pub proof fn law_create_then_lookup(m: FsView, parent: u64, name: Seq<char>, attr: FileAttr)
    requires
        fs_wf(m),
        m.contains_key(parent),
    ensures
        is_named_child(create_spec(m, parent, name, attr), attr.ino, parent, name),
        is_child(create_spec(m, parent, name, attr), attr.ino, parent),
{
}

/// Creating in a directory that does not exist changes nothing.
pub proof fn law_create_missing_parent(m: FsView, parent: u64, name: Seq<char>, attr: FileAttr)
    requires
        !m.contains_key(parent),
    ensures
        create_spec(m, parent, name, attr) == m,
{
}

/// Creating a file leaves every node other than the new one and its
/// directory as it was.
pub proof fn law_create_isolated(m: FsView, parent: u64, name: Seq<char>, attr: FileAttr, k: u64)
    requires
        k != parent,
        k != attr.ino,
    ensures
        create_spec(m, parent, name, attr).contains_key(k) == m.contains_key(k),
        create_spec(m, parent, name, attr)[k] == m[k],
{
}

/// `setattr` answers with the node's stored attributes, exactly as
/// `getattr` does.
pub proof fn law_setattr_is_getattr(m: FsView, ino: u64)
    requires
        m.contains_key(ino),
    ensures
        setattr_spec(m, ino) == getattr_spec(m, ino),
        setattr_spec(m, ino) == Ok::<FileAttr, FsError>(m[ino].attr),
{
}

/// After a write of `d`, `setattr` reports the size `d.len()` and the other
/// attributes as before.
pub proof fn law_setattr_after_write(m: FsView, ino: u64, d: Seq<u8>)
    requires
        m.contains_key(ino),
    ensures
        setattr_spec(write_spec(m, ino, d), ino) == Ok::<FileAttr, FsError>(
            FileAttr { size: d.len() as u64, ..m[ino].attr },
        ),
{
}

} // verus!

//! The virtual filesystem adaptor and its tree store.
//!
//! Kernel-assigned inode numbers are mapped to remote file records
//! through a lazily populated tree. Directory listings are reconciled
//! against the stored children so that unchanged entries keep their
//! inode numbers across re-listings; removed names lose both their
//! inode entry and their file record. Reads are decided here (end of
//! file, clamping) and served by the per-handle cache.
//!
//! Network calls never happen in this module: an operation that needs
//! a directory listing or a chunk says so in its result, and the
//! caller hands the fetched values back in.
use vstd::prelude::*;

use std::collections::BTreeMap;

use bytes::Bytes;

use crate::buf::bytes_view;
use crate::cache::FileCache;
use crate::cache::ReadPlan;
use crate::drive::AliyunFile;
use crate::drive::FileType;
use crate::error::Error;

verus! {

broadcast use vstd::std_specs::btree::group_btree_axioms, vstd::laws_cmp::group_laws_cmp;

/// The kernel's fixed inode number for the mount root.
pub const ROOT_INODE: u64 = 1;

/// The block size advertised to the kernel as the optimal I/O unit.
pub const BLOCK_SIZE: u64 = 4194304;

/// Seconds a returned entry or attribute stays valid in the kernel.
pub const ATTR_TTL_SECS: u64 = 1;

/// The kind of a filesystem object, as the kernel sees it.
#[derive(Debug, Clone, Copy, PartialEq, Eq, Structural)]
pub enum FileKind {
    /// A directory.
    Directory,
    /// A regular file.
    RegularFile,
}

/// The kernel kind of a remote entry type: folders are directories,
/// files are regular files.
pub open spec fn spec_file_kind(t: FileType) -> FileKind {
    match t {
        FileType::Folder => FileKind::Directory,
        FileType::File => FileKind::RegularFile,
    }
}

/// Map a remote entry type to the kind the kernel is shown.
pub fn file_kind(t: FileType) -> (kind: FileKind)
    ensures
        kind == spec_file_kind(t),
{
    match t {
        FileType::Folder => FileKind::Directory,
        FileType::File => FileKind::RegularFile,
    }
}

/// The attributes of one filesystem object, with times in seconds
/// since the epoch.
#[derive(Debug, Clone, Copy, PartialEq, Eq, Structural)]
pub struct FileAttr {
    /// The object's inode number.
    pub ino: u64,
    /// Size in bytes.
    pub size: u64,
    /// Number of blocks allocated, in units of [`BLOCK_SIZE`].
    pub blocks: u64,
    /// Last access time; fixed at the epoch.
    pub atime_secs: u64,
    /// Last modification time.
    pub mtime_secs: u64,
    /// Last status change time.
    pub ctime_secs: u64,
    /// Creation time.
    pub crtime_secs: u64,
    /// Directory or regular file.
    pub kind: FileKind,
    /// Permission bits.
    pub perm: u16,
    /// Number of hard links.
    pub nlink: u32,
    /// Owner user id.
    pub uid: u32,
    /// Owner group id.
    pub gid: u32,
    /// Device number; always zero.
    pub rdev: u32,
    /// The advertised block size.
    pub blksize: u32,
    /// Extra flags; always zero.
    pub flags: u32,
}

/// The attributes computed for a file record: directories get mode
/// 755 and files mode 644, the root carries two links and everything
/// else one, times come from the record, and the block count is the
/// size in [`BLOCK_SIZE`] units plus one.
pub open spec fn spec_file_attr(file: AliyunFile, ino: u64, uid: u32, gid: u32) -> FileAttr {
    FileAttr {
        ino,
        size: file.size,
        blocks: (file.size / BLOCK_SIZE + 1) as u64,
        atime_secs: 0,
        mtime_secs: file.updated_at,
        ctime_secs: file.created_at,
        crtime_secs: file.created_at,
        kind: spec_file_kind(file.kind),
        perm: if spec_file_kind(file.kind) is Directory {
            0o755
        } else {
            0o644
        },
        nlink: if ino == ROOT_INODE {
            2
        } else {
            1
        },
        uid,
        gid,
        rdev: 0,
        blksize: BLOCK_SIZE as u32,
        flags: 0,
    }
}

impl AliyunFile {
    /// Compute the attributes shown to the kernel for this record
    /// under the given inode and process owner.
    pub fn to_file_attr(&self, ino: u64, uid: u32, gid: u32) -> (attr: FileAttr)
        ensures
            attr == spec_file_attr(*self, ino, uid, gid),
    {
        let kind = file_kind(self.kind);
        let perm: u16 = if matches!(kind, FileKind::Directory) {
            0o755
        } else {
            0o644
        };
        let nlink: u32 = if ino == ROOT_INODE {
            2
        } else {
            1
        };
        let blksize = BLOCK_SIZE;
        let blocks = self.size / blksize + 1;
        FileAttr {
            ino,
            size: self.size,
            blocks,
            atime_secs: 0,
            mtime_secs: self.updated_at,
            ctime_secs: self.created_at,
            crtime_secs: self.created_at,
            kind,
            perm,
            nlink,
            uid,
            gid,
            rdev: 0,
            blksize: blksize as u32,
            flags: 0,
        }
    }
}

/// One directory's tree entry: its children as `(name, inode)` pairs
/// in listing order, and its parent's inode (zero for the root).
#[derive(Debug)]
pub struct Inode {
    /// The children, one pair per name, in the order the last
    /// listing delivered them.
    pub children: Vec<(String, u64)>,
    /// The parent inode; zero only for the root.
    pub parent: u64,
}

impl Inode {
    /// A directory entry with no children yet.
    pub fn new(parent: u64) -> (inode: Self)
        ensures
            inode.children@ == Seq::<(String, u64)>::empty(),
            inode.parent == parent,
    {
        Inode { children: Vec::new(), parent }
    }

    /// Append a child pair.
    pub fn add_child(&mut self, name: String, ino: u64)
        ensures
            final(self).children@ == old(self).children@.push((name, ino)),
            final(self).parent == old(self).parent,
    {
        self.children.push((name, ino));
    }
}

/// The characters-and-inode view of a children vector.
pub open spec fn cv(ch: Seq<(String, u64)>) -> Seq<(Seq<char>, u64)> {
    Seq::new(ch.len(), |j: int| (ch[j].0@, ch[j].1))
}

/// Whether a name occurs among the children.
pub open spec fn has_cv_name(ch: Seq<(Seq<char>, u64)>, name: Seq<char>) -> bool {
    exists|j: int| 0 <= j < ch.len() && ch[j].0 == name
}

/// The position of a name among the children.
pub open spec fn cv_name_index(ch: Seq<(Seq<char>, u64)>, name: Seq<char>) -> int {
    choose|j: int| 0 <= j < ch.len() && ch[j].0 == name
}

/// The inode a name maps to; meaningful when the name occurs and
/// names are unique.
pub open spec fn cv_child(ch: Seq<(Seq<char>, u64)>, name: Seq<char>) -> u64 {
    ch[cv_name_index(ch, name)].1
}

/// Whether an inode number occurs among the children.
pub open spec fn has_cv_ino(ch: Seq<(Seq<char>, u64)>, ino: u64) -> bool {
    exists|j: int| 0 <= j < ch.len() && ch[j].1 == ino
}

/// No two children share a name.
pub open spec fn cv_names_unique(ch: Seq<(Seq<char>, u64)>) -> bool {
    forall|j: int, k: int| 0 <= j < k < ch.len() ==> ch[j].0 != ch[k].0
}

/// No two children share an inode number.
pub open spec fn cv_inos_unique(ch: Seq<(Seq<char>, u64)>) -> bool {
    forall|j: int, k: int| 0 <= j < k < ch.len() ==> ch[j].1 != ch[k].1
}

/// Find a child by name: the inode of the first pair carrying the
/// name, or `None` when the name is absent.
pub fn find_child(ch: &Vec<(String, u64)>, name: &String) -> (found: Option<u64>)
    ensures
        match found {
            Some(c) => has_cv_name(cv(ch@), name@) && (cv_names_unique(cv(ch@)) ==> c == cv_child(
                cv(ch@),
                name@,
            )),
            None => !has_cv_name(cv(ch@), name@),
        },
{
    let mut i: usize = 0;
    while i < ch.len()
        invariant
            0 <= i <= ch@.len(),
            forall|j: int| 0 <= j < i ==> cv(ch@)[j].0 != name@,
        decreases ch@.len() - i,
    {
        if crate::token::string_eq(&ch[i].0, name) {
            let c = ch[i].1;
            proof {
                assert(cv(ch@)[i as int].0 == name@);
                if cv_names_unique(cv(ch@)) {
                    let k = cv_name_index(cv(ch@), name@);
                    assert(0 <= k < ch@.len() && cv(ch@)[k].0 == name@);
                    assert(k == i as int);
                }
            }
            return Some(c);
        }
        i = i + 1;
    }
    proof {
        assert(forall|j: int| 0 <= j < ch@.len() ==> cv(ch@)[j].0 != name@);
    }
    None
}

/// Whether a listing holds a record with the given name.
pub open spec fn has_file_name(listing: Seq<AliyunFile>, name: Seq<char>) -> bool {
    exists|j: int| 0 <= j < listing.len() && listing[j].name@ == name
}

/// The first record of a listing carrying the given name; meaningful
/// when the name occurs.
pub open spec fn first_file_with_name(listing: Seq<AliyunFile>, name: Seq<char>) -> AliyunFile
    decreases listing.len(),
{
    if listing.len() == 0 {
        arbitrary()
    } else if has_file_name(listing.drop_last(), name) {
        first_file_with_name(listing.drop_last(), name)
    } else {
        listing.last()
    }
}

/// The children of a directory after reconciling a listing, and the
/// inode counter afterwards. The listing is walked in order; the
/// first record under each name either keeps the existing child
/// inode or is given the next fresh one, later records under the
/// same name are ignored, and stored children whose names are not
/// listed do not appear.
pub open spec fn spec_reconcile(
    oldcv: Seq<(Seq<char>, u64)>,
    listing: Seq<AliyunFile>,
    counter: u64,
) -> (Seq<(Seq<char>, u64)>, u64)
    decreases listing.len(),
{
    if listing.len() == 0 {
        (Seq::empty(), counter)
    } else {
        let prior = spec_reconcile(oldcv, listing.drop_last(), counter);
        let f = listing.last();
        if has_cv_name(prior.0, f.name@) {
            prior
        } else if has_cv_name(oldcv, f.name@) {
            (prior.0.push((f.name@, cv_child(oldcv, f.name@))), prior.1)
        } else {
            (prior.0.push((f.name@, (prior.1 + 1) as u64)), (prior.1 + 1) as u64)
        }
    }
}

/// Whether one of the first `upto` stored children carries this inode
/// under a name the new children no longer hold.
pub open spec fn removed_before(
    oldcv: Seq<(Seq<char>, u64)>,
    newcv: Seq<(Seq<char>, u64)>,
    upto: int,
    ino: u64,
) -> bool {
    exists|j: int| 0 <= j < upto && oldcv[j].1 == ino && !has_cv_name(newcv, oldcv[j].0)
}

/// Whether a stored child's inode disappears under a reconciled
/// children sequence: some old pair carries it under a name the new
/// children no longer hold.
pub open spec fn is_removed(
    oldcv: Seq<(Seq<char>, u64)>,
    newcv: Seq<(Seq<char>, u64)>,
    ino: u64,
) -> bool {
    removed_before(oldcv, newcv, oldcv.len() as int, ino)
}

/// The shape of a reconciled children sequence: unique names that are
/// exactly the listed names, unique inodes, every kept name bound to
/// its old inode, every new name bound to a fresh inode, and the
/// fresh inodes exactly the counter interval consumed.
pub proof fn lemma_reconcile_props(
    oldcv: Seq<(Seq<char>, u64)>,
    listing: Seq<AliyunFile>,
    counter: u64,
)
    requires
        cv_names_unique(oldcv),
        cv_inos_unique(oldcv),
        forall|j: int| 0 <= j < oldcv.len() ==> (#[trigger] oldcv[j]).1 <= counter,
        counter + listing.len() <= u64::MAX,
    ensures
        ({
            let (newcv, cnt) = spec_reconcile(oldcv, listing, counter);
            &&& counter <= cnt <= counter + listing.len()
            &&& cv_names_unique(newcv)
            &&& cv_inos_unique(newcv)
            &&& forall|n: Seq<char>| has_cv_name(newcv, n) <==> has_file_name(listing, n)
            &&& forall|j: int|
                0 <= j < newcv.len() ==> if has_cv_name(oldcv, (#[trigger] newcv[j]).0) {
                    newcv[j].1 == cv_child(oldcv, newcv[j].0) && newcv[j].1 <= counter
                } else {
                    counter < newcv[j].1 <= cnt
                }
            &&& forall|c: u64| counter < c <= cnt ==> has_cv_ino(newcv, c)
        }),
    decreases listing.len(),
{
    if listing.len() > 0 {
        lemma_reconcile_props(oldcv, listing.drop_last(), counter);
        let (prior, pcnt) = spec_reconcile(oldcv, listing.drop_last(), counter);
        let (newcv, cnt) = spec_reconcile(oldcv, listing, counter);
        let f = listing.last();
        assert forall|n: Seq<char>| has_cv_name(newcv, n) <==> has_file_name(listing, n) by {
            if has_cv_name(newcv, n) {
                let j = choose|j: int| 0 <= j < newcv.len() && newcv[j].0 == n;
                if j < prior.len() {
                    assert(has_cv_name(prior, n));
                    let w = choose|w: int|
                        0 <= w < listing.drop_last().len() && listing.drop_last()[w].name@ == n;
                    assert(listing[w].name@ == n);
                } else {
                    assert(listing[listing.len() - 1].name@ == n);
                }
            }
            if has_file_name(listing, n) {
                let w = choose|w: int| 0 <= w < listing.len() && listing[w].name@ == n;
                if w < listing.len() - 1 {
                    assert(listing.drop_last()[w].name@ == n);
                    assert(has_file_name(listing.drop_last(), n));
                    assert(has_cv_name(prior, n));
                    let u = choose|u: int| 0 <= u < prior.len() && prior[u].0 == n;
                    if newcv != prior {
                        assert(newcv[u].0 == n);
                    }
                    assert(has_cv_name(newcv, n));
                } else {
                    assert(f.name@ == n);
                    if has_cv_name(prior, n) {
                        let u = choose|u: int| 0 <= u < prior.len() && prior[u].0 == n;
                        if newcv != prior {
                            assert(newcv[u].0 == n);
                        }
                    } else {
                        assert(newcv[newcv.len() - 1].0 == n);
                    }
                }
            }
        }
        if !has_cv_name(prior, f.name@) {
            assert forall|j: int, k: int| 0 <= j < k < newcv.len() implies newcv[j].0
                != newcv[k].0 by {
                if k < prior.len() {
                    assert(prior[j].0 != prior[k].0);
                } else {
                    assert(newcv[j].0 == prior[j].0);
                    assert(!has_cv_name(prior, f.name@));
                    assert(prior[j].0 != f.name@);
                }
            }
            assert forall|j: int, k: int| 0 <= j < k < newcv.len() implies newcv[j].1
                != newcv[k].1 by {
                if k < prior.len() {
                    assert(prior[j].1 != prior[k].1);
                } else {
                    if !has_cv_name(oldcv, f.name@) {
                        assert(newcv[k].1 == pcnt + 1);
                        if has_cv_name(oldcv, prior[j].0) {
                            assert(prior[j].1 <= counter);
                        } else {
                            assert(prior[j].1 <= pcnt);
                        }
                    } else {
                        let m = cv_name_index(oldcv, f.name@);
                        assert(0 <= m < oldcv.len() && oldcv[m].0 == f.name@);
                        assert(newcv[k].1 == oldcv[m].1);
                        if has_cv_name(oldcv, prior[j].0) {
                            let mj = cv_name_index(oldcv, prior[j].0);
                            assert(0 <= mj < oldcv.len() && oldcv[mj].0 == prior[j].0);
                            assert(mj != m);
                            assert(oldcv[mj].1 != oldcv[m].1);
                        } else {
                            assert(counter < prior[j].1);
                            assert(newcv[k].1 <= counter);
                        }
                    }
                }
            }
        }
        assert forall|c: u64| counter < c <= cnt implies has_cv_ino(newcv, c) by {
            if c <= pcnt {
                assert(has_cv_ino(prior, c));
                let u = choose|u: int| 0 <= u < prior.len() && prior[u].1 == c;
                if newcv != prior {
                    assert(newcv[u].1 == c);
                }
            } else {
                assert(newcv[newcv.len() - 1].1 == c);
            }
        }
    }
}

/// The children a reconciliation produces when every listed name is
/// already stored: the listed names in first-occurrence order, each
/// bound to its stored inode.
pub open spec fn keep_map(
    stored: Seq<(Seq<char>, u64)>,
    listing: Seq<AliyunFile>,
) -> Seq<(Seq<char>, u64)>
    decreases listing.len(),
{
    if listing.len() == 0 {
        Seq::empty()
    } else {
        let prior = keep_map(stored, listing.drop_last());
        let f = listing.last();
        if has_cv_name(prior, f.name@) {
            prior
        } else {
            prior.push((f.name@, cv_child(stored, f.name@)))
        }
    }
}

/// Two stored children sequences that agree on every listed name
/// produce the same kept children.
proof fn lemma_keep_map_agree(
    stored1: Seq<(Seq<char>, u64)>,
    stored2: Seq<(Seq<char>, u64)>,
    listing: Seq<AliyunFile>,
)
    requires
        forall|j: int|
            0 <= j < listing.len() ==> cv_child(stored1, (#[trigger] listing[j]).name@)
                == cv_child(stored2, listing[j].name@),
    ensures
        keep_map(stored1, listing) == keep_map(stored2, listing),
    decreases listing.len(),
{
    if listing.len() > 0 {
        lemma_keep_map_agree(stored1, stored2, listing.drop_last());
        assert(forall|j: int|
            0 <= j < listing.drop_last().len() ==> listing.drop_last()[j] == listing[j]);
        assert(listing[listing.len() - 1] == listing.last());
    }
}

/// When every listed name is already stored, reconciling keeps every
/// inode: the result is [`keep_map`] and the counter does not move.
proof fn lemma_reconcile_all_kept(
    stored: Seq<(Seq<char>, u64)>,
    listing: Seq<AliyunFile>,
    counter: u64,
)
    requires
        forall|j: int| 0 <= j < listing.len() ==> has_cv_name(stored, (#[trigger] listing[j]).name@),
    ensures
        spec_reconcile(stored, listing, counter) == (keep_map(stored, listing), counter),
    decreases listing.len(),
{
    if listing.len() > 0 {
        lemma_reconcile_all_kept(stored, listing.drop_last(), counter);
        assert(forall|j: int|
            0 <= j < listing.drop_last().len() ==> listing.drop_last()[j] == listing[j]);
        assert(listing[listing.len() - 1] == listing.last());
    }
}

/// Re-listing a directory with the same listing changes nothing:
/// reconciling the listing a second time yields the same `(name,
/// inode)` sequence and allocates nothing, whatever the counter has
/// moved to in between. Unchanged children keep their inode numbers.
pub proof fn lemma_reconcile_idempotent(
    oldcv: Seq<(Seq<char>, u64)>,
    listing: Seq<AliyunFile>,
    counter0: u64,
    counter1: u64,
)
    requires
        cv_names_unique(oldcv),
        cv_inos_unique(oldcv),
        forall|j: int| 0 <= j < oldcv.len() ==> (#[trigger] oldcv[j]).1 <= counter0,
        counter0 + listing.len() <= u64::MAX,
    ensures
        spec_reconcile(spec_reconcile(oldcv, listing, counter0).0, listing, counter1) == (
            spec_reconcile(oldcv, listing, counter0).0,
            counter1,
        ),
    decreases listing.len(),
{
    lemma_reconcile_props(oldcv, listing, counter0);
    let r = spec_reconcile(oldcv, listing, counter0).0;
    assert forall|j: int| 0 <= j < listing.len() implies has_cv_name(
        r,
        (#[trigger] listing[j]).name@,
    ) by {
        assert(has_file_name(listing, listing[j].name@));
    }
    lemma_reconcile_all_kept(r, listing, counter1);
    lemma_keep_map_is_self(oldcv, listing, counter0);
}

/// The kept-children map of a reconciled sequence over the same
/// listing is that sequence itself.
proof fn lemma_keep_map_is_self(
    oldcv: Seq<(Seq<char>, u64)>,
    listing: Seq<AliyunFile>,
    counter0: u64,
)
    requires
        cv_names_unique(oldcv),
        cv_inos_unique(oldcv),
        forall|j: int| 0 <= j < oldcv.len() ==> (#[trigger] oldcv[j]).1 <= counter0,
        counter0 + listing.len() <= u64::MAX,
    ensures
        keep_map(spec_reconcile(oldcv, listing, counter0).0, listing) == spec_reconcile(
            oldcv,
            listing,
            counter0,
        ).0,
    decreases listing.len(),
{
    if listing.len() > 0 {
        let prefix = listing.drop_last();
        let f = listing.last();
        let r_pre = spec_reconcile(oldcv, prefix, counter0).0;
        let r = spec_reconcile(oldcv, listing, counter0).0;
        lemma_keep_map_is_self(oldcv, prefix, counter0);
        lemma_reconcile_props(oldcv, prefix, counter0);
        lemma_reconcile_props(oldcv, listing, counter0);
        // The two stored sequences agree on every prefix name: `r`
        // extends `r_pre` by at most one pair under a fresh name.
        assert forall|j: int|
            0 <= j < prefix.len() implies cv_child(r_pre, (#[trigger] prefix[j]).name@)
            == cv_child(r, prefix[j].name@) by {
            let n = prefix[j].name@;
            assert(has_file_name(prefix, n));
            assert(has_cv_name(r_pre, n));
            let u = cv_name_index(r_pre, n);
            assert(0 <= u < r_pre.len() && r_pre[u].0 == n);
            if r != r_pre {
                assert(r[u].0 == n);
                let w = cv_name_index(r, n);
                assert(0 <= w < r.len() && r[w].0 == n);
                assert(w == u);
                assert(cv_child(r, n) == r_pre[u].1);
            }
            assert(cv_child(r_pre, n) == r_pre[u].1);
        }
        lemma_keep_map_agree(r_pre, r, prefix);
        assert(keep_map(r, prefix) == keep_map(r_pre, prefix));
        assert(keep_map(r_pre, prefix) == r_pre);
        if has_cv_name(r_pre, f.name@) {
            assert(r == r_pre);
            assert(keep_map(r, listing) == keep_map(r, prefix));
        } else {
            assert(r == r_pre.push((f.name@, r.last().1)));
            assert(keep_map(r, listing) == r_pre.push((f.name@, cv_child(r, f.name@))));
            let w = cv_name_index(r, f.name@);
            assert(0 <= w < r.len() && r[w].0 == f.name@);
            assert(w == r.len() - 1) by {
                if w < r.len() - 1 {
                    assert(r_pre[w].0 == f.name@);
                    assert(has_cv_name(r_pre, f.name@));
                }
            }
            assert(cv_child(r, f.name@) == r.last().1);
            assert(keep_map(r, listing) =~= r);
        }
    }
}

/// The filesystem adaptor: the tree store (inode entries and file
/// records under the same inode numbers), the two monotonic
/// allocators, the read cache, and the process owner reported in
/// attributes.
pub struct AliyunDriveFileSystem {
    /// The per-handle read cache.
    pub file_cache: FileCache,
    /// The file record of each known inode.
    pub files: BTreeMap<u64, AliyunFile>,
    /// The tree entry of each known inode.
    pub inodes: BTreeMap<u64, Inode>,
    /// The last inode number handed out; never reused.
    pub next_inode: u64,
    /// The last file handle handed out; never reused.
    pub next_fh: u64,
    /// The user id attributes report.
    pub uid: u32,
    /// The group id attributes report.
    pub gid: u32,
}

impl AliyunDriveFileSystem {
    /// Well-formedness of the tree store. The root is present with
    /// parent zero; inode entries and file records cover the same
    /// inode numbers; all numbers were allocated (none above the
    /// counter, none below the root); within a directory, child
    /// names and child inodes are unique, every child is present
    /// with its parent pointer set back to the directory, and no
    /// directory is its own child; and every present inode whose
    /// parent is present stands among that parent's children.
    pub open spec fn wf_tree(self) -> bool {
        let inodes = self.inodes@;
        let files = self.files@;
        &&& inodes.contains_key(ROOT_INODE)
        &&& inodes[ROOT_INODE].parent == 0
        &&& inodes.dom() == files.dom()
        &&& self.next_inode >= 1
        &&& forall|i: u64| #[trigger]
            inodes.contains_key(i) ==> 1 <= i <= self.next_inode && inodes[i].parent
                <= self.next_inode
        &&& forall|p: u64| #[trigger] inodes.contains_key(p) ==> cv_names_unique(cv(inodes[p].children@))
        &&& forall|p: u64| #[trigger] inodes.contains_key(p) ==> cv_inos_unique(cv(inodes[p].children@))
        &&& forall|p: u64, j: int|
            inodes.contains_key(p) && 0 <= j < inodes[p].children@.len() ==> {
                let c = (#[trigger] inodes[p].children@[j]).1;
                &&& inodes.contains_key(c)
                &&& inodes[c].parent == p
                &&& c != p
            }
        &&& forall|i: u64| #[trigger]
            inodes.contains_key(i) && i != ROOT_INODE && inodes.contains_key(inodes[i].parent)
                ==> has_cv_ino(cv(inodes[inodes[i].parent].children@), i)
    }

    /// Well-formedness of the whole adaptor.
    pub open spec fn wf(self) -> bool {
        &&& self.wf_tree()
        &&& self.file_cache.wf()
    }

    /// A fresh adaptor: no inodes yet (the root arrives with
    /// [`AliyunDriveFileSystem::init`]), inode numbers starting
    /// after the root constant, file handles starting clear of
    /// kernel-reserved values.
    pub fn new(read_buffer_size: usize, uid: u32, gid: u32) -> (fs: Self)
        requires
            read_buffer_size > 0,
        ensures
            fs.files@ == Map::<u64, AliyunFile>::empty(),
            fs.inodes@ == Map::<u64, Inode>::empty(),
            fs.next_inode == 1,
            fs.next_fh == 2,
            fs.uid == uid,
            fs.gid == gid,
            fs.file_cache.wf(),
            fs.file_cache.cache@ == Map::<u64, crate::cache::CachedFile>::empty(),
            fs.file_cache.read_buffer_size == read_buffer_size,
    {
        AliyunDriveFileSystem {
            file_cache: FileCache::new(read_buffer_size),
            files: BTreeMap::new(),
            inodes: BTreeMap::new(),
            next_inode: 1,
            next_fh: 2,
            uid,
            gid,
        }
    }

    /// Allocate the next inode number. The counter is monotonic and
    /// assumed never to wrap within a process lifetime.
    fn next_inode(&mut self) -> (ino: u64)
        requires
            old(self).next_inode < u64::MAX,
        ensures
            *final(self) == (AliyunDriveFileSystem { next_inode: ino, ..*old(self) }),
            ino == old(self).next_inode + 1,
    {
        self.next_inode = self.next_inode + 1;
        self.next_inode
    }

    /// Allocate the next file handle. The counter is monotonic and
    /// assumed never to wrap within a process lifetime.
    fn next_fh(&mut self) -> (fh: u64)
        requires
            old(self).next_fh < u64::MAX,
        ensures
            *final(self) == (AliyunDriveFileSystem { next_fh: fh, ..*old(self) }),
            fh == old(self).next_fh + 1,
    {
        self.next_fh = self.next_fh + 1;
        self.next_fh
    }

    /// Install the root: a folder record with a fixed name, an empty
    /// remote identifier and the drive's used size (for display),
    /// and a root inode whose parent is zero. The caller obtains
    /// `used_size` from the quota call and turns its failure into
    /// the init failure instead of calling this.
    pub fn init(&mut self, used_size: u64)
        requires
            old(self).inodes@ == Map::<u64, Inode>::empty(),
            old(self).files@ == Map::<u64, AliyunFile>::empty(),
            old(self).next_inode >= 1,
            old(self).file_cache.wf(),
        ensures
            final(self).wf(),
            final(self).inodes@.dom() == Set::<u64>::empty().insert(ROOT_INODE),
            final(self).inodes@[ROOT_INODE].parent == 0,
            final(self).inodes@[ROOT_INODE].children@.len() == 0,
            final(self).files@.dom() == Set::<u64>::empty().insert(ROOT_INODE),
            final(self).files@[ROOT_INODE].id@ == Seq::<char>::empty(),
            final(self).files@[ROOT_INODE].name@ == "root"@,
            final(self).files@[ROOT_INODE].kind == FileType::Folder,
            final(self).files@[ROOT_INODE].size == used_size,
            final(self).next_inode == old(self).next_inode,
            final(self).next_fh == old(self).next_fh,
            final(self).uid == old(self).uid,
            final(self).gid == old(self).gid,
            final(self).file_cache == old(self).file_cache,
    {
        let mut root_file = AliyunFile::new_root();
        root_file.size = used_size;
        let root_inode = Inode::new(0);
        self.inodes.insert(ROOT_INODE, root_inode);
        self.files.insert(ROOT_INODE, root_file);
        proof {
            assert(self.inodes@.dom() =~= Set::<u64>::empty().insert(ROOT_INODE));
            assert(self.files@.dom() =~= Set::<u64>::empty().insert(ROOT_INODE));
        }
    }

    /// The file record stored under an inode, when one is known.
    pub fn get_file(&self, ino: u64) -> (file: Option<&AliyunFile>)
        ensures
            match file {
                Some(f) => self.files@.contains_key(ino) && *f == self.files@[ino],
                None => !self.files@.contains_key(ino),
            },
    {
        self.files.get(&ino)
    }

    /// The tree entry stored under an inode, when one is known.
    pub fn get_inode(&self, ino: u64) -> (inode: Option<&Inode>)
        ensures
            match inode {
                Some(n) => self.inodes@.contains_key(ino) && *n == self.inodes@[ino],
                None => !self.inodes@.contains_key(ino),
            },
    {
        self.inodes.get(&ino)
    }

    /// The current attributes of an inode, or `NoEntry` when it is
    /// unknown.
    pub fn getattr(&self, ino: u64) -> (r: Result<FileAttr, Error>)
        ensures
            match r {
                Ok(attr) => self.files@.contains_key(ino) && attr == spec_file_attr(
                    self.files@[ino],
                    ino,
                    self.uid,
                    self.gid,
                ),
                Err(e) => e == Error::NoEntry && !self.files@.contains_key(ino),
            },
    {
        match self.files.get(&ino) {
            Some(file) => Ok(file.to_file_attr(ino, self.uid, self.gid)),
            None => Err(Error::NoEntry),
        }
    }

    /// Open an inode: allocate a fresh file handle and register it
    /// with the read cache under the record's identifier and size.
    /// `NoEntry` when the inode is unknown.
    pub fn open(&mut self, ino: u64) -> (r: Result<u64, Error>)
        requires
            old(self).wf(),
            old(self).next_fh < u64::MAX,
        ensures
            final(self).wf(),
            match r {
                Ok(fh) => {
                    &&& old(self).files@.contains_key(ino)
                    &&& fh == old(self).next_fh + 1
                    &&& *final(self) == (AliyunDriveFileSystem {
                        next_fh: fh,
                        file_cache: final(self).file_cache,
                        ..*old(self)
                    })
                    &&& final(self).file_cache.read_buffer_size
                        == old(self).file_cache.read_buffer_size
                    &&& final(self).file_cache.cache@ == old(self).file_cache.cache@.insert(
                        fh,
                        final(self).file_cache.cache@[fh],
                    )
                    &&& final(self).file_cache.contains(fh)
                    &&& final(self).file_cache.entry(fh).file_id == old(self).files@[ino].id
                    &&& final(self).file_cache.entry(fh).file_size == old(self).files@[ino].size
                    &&& final(self).file_cache.entry(fh).start_pos == 0
                    &&& final(self).file_cache.buf(fh) == Seq::<u8>::empty()
                },
                Err(e) => {
                    &&& e == Error::NoEntry
                    &&& !old(self).files@.contains_key(ino)
                    &&& *final(self) == *old(self)
                },
            },
    {
        let (file_id, file_size) = match self.files.get(&ino) {
            Some(f) => (f.id.clone(), f.size),
            None => {
                return Err(Error::NoEntry);
            },
        };
        let fh = self.next_fh();
        self.file_cache.open(fh, file_id, file_size);
        Ok(fh)
    }

    /// Reconcile a fresh directory listing against the stored
    /// children of `ino` (see [`spec_reconcile`]): the first record
    /// under each listed name keeps the existing child inode or
    /// receives a fresh one together with its record and an empty
    /// child entry; stored children whose names are no longer listed
    /// lose both their inode entry and their file record. Records of
    /// kept children are not replaced. `NoEntry` when the directory
    /// is unknown.
    #[verifier::loop_isolation(false)]
    #[verifier::rlimit(100)]
    pub fn apply_listing(&mut self, ino: u64, listing: Vec<AliyunFile>) -> (r: Result<(), Error>)
        requires
            old(self).wf(),
            old(self).next_inode + listing@.len() <= u64::MAX,
        ensures
            final(self).wf(),
            final(self).next_fh == old(self).next_fh,
            final(self).uid == old(self).uid,
            final(self).gid == old(self).gid,
            final(self).file_cache == old(self).file_cache,
            match r {
                Err(e) => {
                    &&& e == Error::NoEntry
                    &&& !old(self).inodes@.contains_key(ino)
                    &&& *final(self) == *old(self)
                },
                Ok(_) => ({
                    let oldcv = cv(old(self).inodes@[ino].children@);
                    let rec = spec_reconcile(oldcv, listing@, old(self).next_inode);
                    let newcv = rec.0;
                    &&& old(self).inodes@.contains_key(ino)
                    &&& final(self).next_inode == rec.1
                    &&& final(self).inodes@.contains_key(ino)
                    &&& cv(final(self).inodes@[ino].children@) == newcv
                    &&& final(self).inodes@[ino].parent == old(self).inodes@[ino].parent
                    &&& forall|c: u64|
                        (#[trigger] final(self).files@.contains_key(c)) <==> ((old(
                            self,
                        ).files@.contains_key(c) && !is_removed(oldcv, newcv, c)) || old(
                            self,
                        ).next_inode < c <= rec.1)
                    &&& forall|c: u64|
                        (#[trigger] final(self).inodes@.contains_key(c)) <==> ((old(
                            self,
                        ).inodes@.contains_key(c) && !is_removed(oldcv, newcv, c)) || old(
                            self,
                        ).next_inode < c <= rec.1)
                    &&& forall|c: u64|
                        old(self).files@.contains_key(c) && !is_removed(oldcv, newcv, c) ==> (
                        #[trigger] final(self).files@[c]) == old(self).files@[c]
                    &&& forall|c: u64|
                        c != ino && old(self).inodes@.contains_key(c) && !is_removed(
                            oldcv,
                            newcv,
                            c,
                        ) ==> (#[trigger] final(self).inodes@[c]) == old(self).inodes@[c]
                    &&& forall|j: int|
                        0 <= j < newcv.len() ==> (if has_cv_name(
                            oldcv,
                            (#[trigger] newcv[j]).0,
                        ) {
                            newcv[j].1 == cv_child(oldcv, newcv[j].0)
                        } else {
                            &&& old(self).next_inode < newcv[j].1 <= rec.1
                            &&& final(self).files@[newcv[j].1] == first_file_with_name(
                                listing@,
                                newcv[j].0,
                            )
                            &&& final(self).inodes@[newcv[j].1].parent == ino
                            &&& final(self).inodes@[newcv[j].1].children@.len() == 0
                        })
                }),
            },
    {
        if self.inodes.get(&ino).is_none() {
            return Err(Error::NoEntry);
        }
        let node = match self.inodes.remove(&ino) {
            Some(n) => n,
            None => unreached(),
        };
        let Inode { children: old_children, parent: parent_of_ino } = node;
        let ghost oldcv = cv(old_children@);
        let ghost c0 = old(self).next_inode;
        let ghost l_full = listing@;
        proof {
            assert(oldcv == cv(old(self).inodes@[ino].children@));
            assert(cv_names_unique(oldcv));
            assert(cv_inos_unique(oldcv));
            assert forall|j: int| 0 <= j < oldcv.len() implies (#[trigger] oldcv[j]).1 <= c0
                && old(self).inodes@.contains_key(oldcv[j].1) && old(self).inodes@[oldcv[j].1].parent
                == ino && oldcv[j].1 != ino by {
                assert(old(self).inodes@[ino].children@[j].1 == oldcv[j].1);
            }
        }
        let mut new_children: Vec<(String, u64)> = Vec::new();
        let mut remaining = listing;
        let ghost mut k: int = 0;
        proof {
            assert(cv(new_children@) =~= Seq::<(Seq<char>, u64)>::empty());
            assert(l_full.take(0) =~= Seq::<AliyunFile>::empty());
            assert(l_full.skip(0) =~= l_full);
        }
        while remaining.len() > 0
            invariant
                0 <= k <= l_full.len(),
                remaining@ == l_full.skip(k),
                (cv(new_children@), self.next_inode) == spec_reconcile(oldcv, l_full.take(k), c0),
                c0 <= self.next_inode <= c0 + k,
                forall|c: u64|
                    (#[trigger] self.files@.contains_key(c)) <==> (old(
                        self,
                    ).files@.contains_key(c) || c0 < c <= self.next_inode),
                forall|c: u64|
                    old(self).files@.contains_key(c) ==> (#[trigger] self.files@[c]) == old(
                        self,
                    ).files@[c],
                forall|c: u64|
                    (#[trigger] self.inodes@.contains_key(c)) <==> ((old(
                        self,
                    ).inodes@.contains_key(c) && c != ino) || c0 < c <= self.next_inode),
                forall|c: u64|
                    c != ino && old(self).inodes@.contains_key(c) ==> (
                    #[trigger] self.inodes@[c]) == old(self).inodes@[c],
                forall|c: u64|
                    c0 < c <= self.next_inode ==> (#[trigger] self.inodes@[c]).parent == ino
                        && self.inodes@[c].children@.len() == 0,
                forall|j: int|
                    0 <= j < cv(new_children@).len() && !has_cv_name(
                        oldcv,
                        (#[trigger] cv(new_children@)[j]).0,
                    ) ==> self.files@[cv(new_children@)[j].1] == first_file_with_name(
                        l_full.take(k),
                        cv(new_children@)[j].0,
                    ),
                self.next_fh == old(self).next_fh,
                self.uid == old(self).uid,
                self.gid == old(self).gid,
                self.file_cache == old(self).file_cache,
            decreases remaining@.len(),
        {
            let ghost pre_cv = cv(new_children@);
            let ghost pre_cnt = self.next_inode;
            let f = remaining.remove(0);
            proof {
                assert(f == l_full[k]);
                assert(remaining@ =~= l_full.skip(k + 1));
                assert(l_full.take(k + 1).drop_last() =~= l_full.take(k));
                assert(l_full.take(k + 1).last() == l_full[k]);
                lemma_reconcile_props(oldcv, l_full.take(k), c0);
            }
            match find_child(&new_children, &f.name) {
                Some(_) => {
                    proof {
                        assert(has_cv_name(pre_cv, l_full[k].name@));
                        assert(spec_reconcile(oldcv, l_full.take(k + 1), c0) == (
                            pre_cv,
                            pre_cnt,
                        ));
                        assert(has_file_name(l_full.take(k), l_full[k].name@));
                        assert forall|j: int|
                            0 <= j < pre_cv.len() && !has_cv_name(
                                oldcv,
                                (#[trigger] pre_cv[j]).0,
                            ) implies first_file_with_name(l_full.take(k + 1), pre_cv[j].0)
                            == first_file_with_name(l_full.take(k), pre_cv[j].0) by {
                            assert(has_cv_name(pre_cv, pre_cv[j].0));
                            assert(has_file_name(l_full.take(k), pre_cv[j].0));
                        }
                        k = k + 1;
                    }
                },
                None => {
                    proof {
                        assert(!has_cv_name(pre_cv, l_full[k].name@));
                    }
                    match find_child(&old_children, &f.name) {
                        Some(c) => {
                            new_children.push((f.name, c));
                            proof {
                                assert(c == cv_child(oldcv, l_full[k].name@));
                                assert(cv(new_children@) =~= pre_cv.push(
                                    (l_full[k].name@, c),
                                ));
                                assert(spec_reconcile(oldcv, l_full.take(k + 1), c0) == (
                                    cv(new_children@),
                                    pre_cnt,
                                ));
                                assert forall|j: int|
                                    0 <= j < cv(new_children@).len() && !has_cv_name(
                                        oldcv,
                                        (#[trigger] cv(new_children@)[j]).0,
                                    ) implies self.files@[cv(new_children@)[j].1]
                                    == first_file_with_name(
                                    l_full.take(k + 1),
                                    cv(new_children@)[j].0,
                                ) by {
                                    assert(j < pre_cv.len());
                                    assert(cv(new_children@)[j] == pre_cv[j]);
                                    assert(has_cv_name(pre_cv, pre_cv[j].0));
                                    assert(has_file_name(l_full.take(k), pre_cv[j].0));
                                }
                                k = k + 1;
                            }
                        },
                        None => {
                            proof {
                                assert(!has_cv_name(oldcv, l_full[k].name@));
                                assert(self.next_inode < u64::MAX);
                            }
                            let c = self.next_inode();
                            let name_copy = f.name.clone();
                            new_children.push((name_copy, c));
                            self.files.insert(c, f);
                            self.inodes.insert(c, Inode::new(ino));
                            proof {
                                assert(cv(new_children@) =~= pre_cv.push(
                                    (l_full[k].name@, c),
                                ));
                                assert(spec_reconcile(oldcv, l_full.take(k + 1), c0) == (
                                    cv(new_children@),
                                    c,
                                ));
                                assert(!has_file_name(l_full.take(k), l_full[k].name@));
                                assert(first_file_with_name(l_full.take(k + 1), l_full[k].name@)
                                    == l_full[k]);
                                assert(!old(self).files@.contains_key(c));
                                assert(!old(self).inodes@.contains_key(c));
                                assert forall|j: int|
                                    0 <= j < cv(new_children@).len() && !has_cv_name(
                                        oldcv,
                                        (#[trigger] cv(new_children@)[j]).0,
                                    ) implies self.files@[cv(new_children@)[j].1]
                                    == first_file_with_name(
                                    l_full.take(k + 1),
                                    cv(new_children@)[j].0,
                                ) by {
                                    if j < pre_cv.len() {
                                        assert(cv(new_children@)[j] == pre_cv[j]);
                                        assert(has_cv_name(pre_cv, pre_cv[j].0));
                                        assert(has_file_name(l_full.take(k), pre_cv[j].0));
                                        assert(pre_cv[j].1 != c);
                                    } else {
                                        assert(cv(new_children@)[j] == (l_full[k].name@, c));
                                    }
                                }
                                k = k + 1;
                            }
                        },
                    }
                },
            }
        }
        let ghost newcv = cv(new_children@);
        let ghost cnt1 = self.next_inode;
        let ghost files1 = self.files@;
        let ghost inodes1 = self.inodes@;
        proof {
            assert(l_full.take(l_full.len() as int) =~= l_full);
            assert((newcv, cnt1) == spec_reconcile(oldcv, l_full, c0));
            lemma_reconcile_props(oldcv, l_full, c0);
        }
        let mut i: usize = 0;
        while i < old_children.len()
            invariant
                0 <= i <= old_children@.len(),
                forall|c: u64|
                    (#[trigger] self.files@.contains_key(c)) <==> (files1.contains_key(c)
                        && !removed_before(oldcv, newcv, i as int, c)),
                forall|c: u64|
                    self.files@.contains_key(c) ==> (#[trigger] self.files@[c]) == files1[c],
                forall|c: u64|
                    (#[trigger] self.inodes@.contains_key(c)) <==> (inodes1.contains_key(c)
                        && !removed_before(oldcv, newcv, i as int, c)),
                forall|c: u64|
                    self.inodes@.contains_key(c) ==> (#[trigger] self.inodes@[c]) == inodes1[c],
                self.next_inode == cnt1,
                self.next_fh == old(self).next_fh,
                self.uid == old(self).uid,
                self.gid == old(self).gid,
                self.file_cache == old(self).file_cache,
            decreases old_children@.len() - i,
        {
            let c = old_children[i].1;
            proof {
                assert(oldcv[i as int].1 == c);
            }
            let keep = find_child(&new_children, &old_children[i].0);
            if keep.is_none() {
                proof {
                    assert(!has_cv_name(newcv, oldcv[i as int].0));
                }
                self.files.remove(&c);
                self.inodes.remove(&c);
                proof {
                    assert forall|d: u64|
                        removed_before(oldcv, newcv, i + 1, d) <==> (removed_before(
                            oldcv,
                            newcv,
                            i as int,
                            d,
                        ) || d == c) by {
                        if removed_before(oldcv, newcv, i + 1, d) {
                            let j = choose|j: int|
                                0 <= j < i + 1 && oldcv[j].1 == d && !has_cv_name(
                                    newcv,
                                    oldcv[j].0,
                                );
                            if j < i {
                                assert(removed_before(oldcv, newcv, i as int, d));
                            }
                        }
                        if removed_before(oldcv, newcv, i as int, d) {
                            let j = choose|j: int|
                                0 <= j < i && oldcv[j].1 == d && !has_cv_name(newcv, oldcv[j].0);
                            assert(0 <= j < i + 1);
                        }
                        if d == c {
                            assert(0 <= i < i + 1 && oldcv[i as int].1 == d && !has_cv_name(
                                newcv,
                                oldcv[i as int].0,
                            ));
                        }
                    }
                }
            } else {
                proof {
                    assert(has_cv_name(newcv, oldcv[i as int].0));
                    assert forall|d: u64|
                        removed_before(oldcv, newcv, i + 1, d) <==> removed_before(
                            oldcv,
                            newcv,
                            i as int,
                            d,
                        ) by {
                        if removed_before(oldcv, newcv, i + 1, d) {
                            let j = choose|j: int|
                                0 <= j < i + 1 && oldcv[j].1 == d && !has_cv_name(
                                    newcv,
                                    oldcv[j].0,
                                );
                            assert(j != i);
                        }
                        if removed_before(oldcv, newcv, i as int, d) {
                            let j = choose|j: int|
                                0 <= j < i && oldcv[j].1 == d && !has_cv_name(newcv, oldcv[j].0);
                            assert(0 <= j < i + 1);
                        }
                    }
                }
            }
            i = i + 1;
        }
        self.inodes.insert(ino, Inode { children: new_children, parent: parent_of_ino });
        proof {
            let pre = *old(self);
            let finodes = self.inodes@;
            let ffiles = self.files@;
            assert(cv(finodes[ino].children@) == newcv);
            assert(finodes[ino].parent == parent_of_ino);
            assert(parent_of_ino == pre.inodes@[ino].parent);
            // A fresh inode number is never a removed one: removed numbers
            // come from the old children, which lie at or below the old
            // counter.
            assert forall|c: u64| c0 < c <= cnt1 implies !is_removed(oldcv, newcv, c) by {
                if is_removed(oldcv, newcv, c) {
                    let j = choose|j: int|
                        0 <= j < oldcv.len() && oldcv[j].1 == c && !has_cv_name(
                            newcv,
                            oldcv[j].0,
                        );
                    assert(oldcv[j].1 <= c0);
                }
            }
            assert(!is_removed(oldcv, newcv, ino)) by {
                if is_removed(oldcv, newcv, ino) {
                    let j = choose|j: int|
                        0 <= j < oldcv.len() && oldcv[j].1 == ino && !has_cv_name(
                            newcv,
                            oldcv[j].0,
                        );
                    assert(oldcv[j].1 != ino);
                }
            }
            // The two maps' domains after the reconciliation.
            assert forall|c: u64| (#[trigger] ffiles.contains_key(c)) <==> ((
            pre.files@.contains_key(c) && !is_removed(oldcv, newcv, c)) || c0 < c
                <= cnt1) by {}
            assert forall|c: u64| (#[trigger] finodes.contains_key(c)) <==> ((
            pre.inodes@.contains_key(c) && !is_removed(oldcv, newcv, c)) || c0 < c
                <= cnt1) by {
                if finodes.contains_key(c) && c != ino {
                    assert(inodes1.contains_key(c) && !is_removed(oldcv, newcv, c));
                }
                if c == ino {
                    assert(pre.inodes@.contains_key(ino));
                }
                if (pre.inodes@.contains_key(c) && !is_removed(oldcv, newcv, c) && c != ino) || c0
                    < c <= cnt1 {
                    assert(inodes1.contains_key(c));
                }
            }
            // Values survive unchanged off the reconciled directory.
            assert forall|c: u64|
                pre.files@.contains_key(c) && !is_removed(oldcv, newcv, c) implies (
            #[trigger] ffiles[c]) == pre.files@[c] by {
                assert(files1.contains_key(c));
            }
            assert forall|c: u64|
                c != ino && pre.inodes@.contains_key(c) && !is_removed(oldcv, newcv, c) implies (
            #[trigger] finodes[c]) == pre.inodes@[c] by {
                assert(inodes1.contains_key(c));
            }
            // Fresh children: their record is the first listed one under
            // their name, their entry points back at the directory.
            assert forall|j: int|
                0 <= j < newcv.len() && !has_cv_name(oldcv, (#[trigger] newcv[j]).0) implies {
                &&& c0 < newcv[j].1 <= cnt1
                &&& ffiles[newcv[j].1] == first_file_with_name(l_full, newcv[j].0)
                &&& finodes[newcv[j].1].parent == ino
                &&& finodes[newcv[j].1].children@.len() == 0
            } by {
                let c = newcv[j].1;
                assert(c0 < c <= cnt1);
                assert(files1[c] == first_file_with_name(l_full, newcv[j].0));
                assert(!is_removed(oldcv, newcv, c));
                assert(ffiles.contains_key(c) && ffiles[c] == files1[c]);
                assert(inodes1.contains_key(c) && inodes1[c].parent == ino && inodes1[c].children@.len() == 0);
                assert(c != ino);
                assert(finodes.contains_key(c) && finodes[c] == inodes1[c]);
            }
            // Well-formedness of the resulting tree.
            assert(self.wf_tree()) by {
                assert forall|j: int| 0 <= j < oldcv.len() implies (#[trigger] oldcv[j]).1
                    != ROOT_INODE by {
                    assert(pre.inodes@[oldcv[j].1].parent == ino);
                    assert(pre.inodes@[ROOT_INODE].parent == 0);
                    assert(ino >= 1);
                }
                assert(!is_removed(oldcv, newcv, ROOT_INODE)) by {
                    if is_removed(oldcv, newcv, ROOT_INODE) {
                        let j = choose|j: int|
                            0 <= j < oldcv.len() && oldcv[j].1 == ROOT_INODE && !has_cv_name(
                                newcv,
                                oldcv[j].0,
                            );
                    }
                }
                assert(finodes.contains_key(ROOT_INODE));
                assert(finodes[ROOT_INODE].parent == 0);
                assert(finodes.dom() =~= ffiles.dom()) by {
                    assert forall|c: u64|
                        finodes.contains_key(c) <==> ffiles.contains_key(c) by {
                        assert(pre.inodes@.dom() == pre.files@.dom());
                        if pre.inodes@.contains_key(c) {
                            assert(pre.files@.contains_key(c));
                        }
                        if pre.files@.contains_key(c) {
                            assert(pre.inodes@.contains_key(c));
                        }
                    }
                }
                assert(cnt1 >= 1);
                assert forall|c: u64| #[trigger]
                    finodes.contains_key(c) implies 1 <= c <= cnt1 && finodes[c].parent
                    <= cnt1 by {
                    if c0 < c <= cnt1 {
                        assert(finodes[c].parent == ino);
                        assert(ino <= c0);
                    } else {
                        assert(pre.inodes@.contains_key(c));
                        assert(1 <= c <= c0);
                        if c == ino {
                            assert(finodes[c].parent == parent_of_ino);
                            assert(parent_of_ino <= c0);
                        } else {
                            assert(finodes[c] == pre.inodes@[c]);
                        }
                    }
                }
                assert forall|p: u64| #[trigger] finodes.contains_key(p) implies cv_names_unique(
                    cv(finodes[p].children@),
                ) && cv_inos_unique(cv(finodes[p].children@)) by {
                    if p == ino {
                        assert(cv(finodes[p].children@) == newcv);
                    } else if c0 < p <= cnt1 {
                        assert(finodes[p].children@.len() == 0);
                        assert(cv(finodes[p].children@) =~= Seq::<(Seq<char>, u64)>::empty());
                    } else {
                        assert(finodes[p] == pre.inodes@[p]);
                    }
                }
                assert forall|p: u64, j: int|
                    finodes.contains_key(p) && 0 <= j < finodes[p].children@.len() implies {
                    let c = (#[trigger] finodes[p].children@[j]).1;
                    &&& finodes.contains_key(c)
                    &&& finodes[c].parent == p
                    &&& c != p
                } by {
                    let c = finodes[p].children@[j].1;
                    if p == ino {
                        assert(newcv[j] == cv(finodes[ino].children@)[j]);
                        assert(newcv[j].1 == c);
                        if has_cv_name(oldcv, newcv[j].0) {
                            let m = cv_name_index(oldcv, newcv[j].0);
                            assert(0 <= m < oldcv.len() && oldcv[m].0 == newcv[j].0);
                            assert(c == oldcv[m].1);
                            assert(pre.inodes@.contains_key(c) && pre.inodes@[c].parent == ino
                                && c != ino);
                            assert(!is_removed(oldcv, newcv, c)) by {
                                if is_removed(oldcv, newcv, c) {
                                    let j2 = choose|j2: int|
                                        0 <= j2 < oldcv.len() && oldcv[j2].1 == c
                                            && !has_cv_name(newcv, oldcv[j2].0);
                                    assert(j2 == m);
                                    assert(has_cv_name(newcv, oldcv[m].0));
                                }
                            }
                            assert(finodes.contains_key(c));
                            assert(finodes[c] == pre.inodes@[c]);
                        } else {
                            assert(c0 < c <= cnt1);
                            assert(finodes[c].parent == ino);
                            assert(ino <= c0);
                        }
                    } else if c0 < p <= cnt1 {
                        assert(finodes[p].children@.len() == 0);
                    } else {
                        assert(pre.inodes@.contains_key(p));
                        assert(finodes[p] == pre.inodes@[p]);
                        assert(pre.inodes@[p].children@[j].1 == c);
                        assert(pre.inodes@.contains_key(c) && pre.inodes@[c].parent == p && c
                            != p);
                        assert(!is_removed(oldcv, newcv, c)) by {
                            if is_removed(oldcv, newcv, c) {
                                let j2 = choose|j2: int|
                                    0 <= j2 < oldcv.len() && oldcv[j2].1 == c && !has_cv_name(
                                        newcv,
                                        oldcv[j2].0,
                                    );
                                assert(pre.inodes@[c].parent == ino);
                            }
                        }
                        assert(finodes.contains_key(c));
                        if c == ino {
                            assert(finodes[c].parent == parent_of_ino);
                            assert(parent_of_ino == p);
                        } else {
                            assert(finodes[c] == pre.inodes@[c]);
                        }
                    }
                }
                assert forall|d: u64| #[trigger]
                    finodes.contains_key(d) && d != ROOT_INODE && finodes.contains_key(
                    finodes[d].parent,
                ) implies has_cv_ino(cv(finodes[finodes[d].parent].children@), d) by {
                    if c0 < d <= cnt1 {
                        assert(finodes[d].parent == ino);
                        assert(cv(finodes[ino].children@) == newcv);
                        assert(has_cv_ino(newcv, d));
                    } else {
                        assert(pre.inodes@.contains_key(d));
                        let p = finodes[d].parent;
                        if d == ino {
                            assert(p == parent_of_ino);
                            assert(p == pre.inodes@[ino].parent);
                        } else {
                            assert(finodes[d] == pre.inodes@[d]);
                            assert(p == pre.inodes@[d].parent);
                        }
                        assert(p <= c0) by {
                            assert(pre.inodes@[d].parent <= c0);
                        }
                        assert(pre.inodes@.contains_key(p)) by {
                            assert(finodes.contains_key(p) && !(c0 < p <= cnt1));
                        }
                        if p != ino {
                            assert(p != ino);
                            assert(has_cv_ino(cv(pre.inodes@[p].children@), d)) by {
                                assert(pre.inodes@.contains_key(d) && d != ROOT_INODE
                                    && pre.inodes@.contains_key(pre.inodes@[d].parent));
                            }
                            assert(finodes[p] == pre.inodes@[p]) by {
                                assert(!is_removed(oldcv, newcv, p)) by {
                                    if is_removed(oldcv, newcv, p) {
                                        let j2 = choose|j2: int|
                                            0 <= j2 < oldcv.len() && oldcv[j2].1 == p
                                                && !has_cv_name(newcv, oldcv[j2].0);
                                        assert(pre.inodes@[p].parent == ino);
                                        let m = choose|m: int|
                                            0 <= m < cv(
                                                pre.inodes@[p].children@,
                                            ).len() && cv(pre.inodes@[p].children@)[m].1 == d;
                                        assert(finodes.contains_key(p));
                                    }
                                }
                            }
                            assert(has_cv_ino(cv(finodes[p].children@), d));
                        } else {
                            // The parent is the reconciled directory: the
                            // child survived, so its name is still listed
                            // and it kept its inode.
                            assert(has_cv_ino(cv(pre.inodes@[ino].children@), d)) by {
                                assert(pre.inodes@.contains_key(d) && d != ROOT_INODE
                                    && pre.inodes@.contains_key(pre.inodes@[d].parent));
                            }
                            let m = choose|m: int|
                                0 <= m < oldcv.len() && oldcv[m].1 == d;
                            assert(!is_removed(oldcv, newcv, d));
                            assert(has_cv_name(newcv, oldcv[m].0)) by {
                                if !has_cv_name(newcv, oldcv[m].0) {
                                    assert(is_removed(oldcv, newcv, d));
                                }
                            }
                            let u = choose|u: int|
                                0 <= u < newcv.len() && newcv[u].0 == oldcv[m].0;
                            assert(has_cv_name(oldcv, newcv[u].0));
                            assert(newcv[u].1 == cv_child(oldcv, newcv[u].0));
                            let w = cv_name_index(oldcv, newcv[u].0);
                            assert(0 <= w < oldcv.len() && oldcv[w].0 == newcv[u].0);
                            assert(w == m);
                            assert(newcv[u].1 == d);
                            assert(has_cv_ino(newcv, d));
                        }
                    }
                }
            }
        }
        Ok(())
    }

    /// The first step of a lookup: `ParentNotFound` when the parent
    /// is unknown; otherwise, when the parent has no children loaded
    /// yet, the remote identifier to list (the caller lists it,
    /// applies the listing, and then calls
    /// [`AliyunDriveFileSystem::lookup`]); `None` when the children
    /// are already loaded.
    pub fn lookup_prepare(&self, parent: u64) -> (r: Result<Option<String>, Error>)
        requires
            self.wf(),
        ensures
            match r {
                Err(e) => e == Error::ParentNotFound && !self.inodes@.contains_key(parent),
                Ok(need) => self.inodes@.contains_key(parent) && match need {
                    Some(file_id) => self.inodes@[parent].children@.len() == 0 && file_id
                        == self.files@[parent].id,
                    None => self.inodes@[parent].children@.len() != 0,
                },
            },
    {
        let node = match self.inodes.get(&parent) {
            Some(n) => n,
            None => {
                return Err(Error::ParentNotFound);
            },
        };
        if node.children.is_empty() {
            let file = match self.files.get(&parent) {
                Some(f) => f,
                None => unreached(),
            };
            Ok(Some(file.id.clone()))
        } else {
            Ok(None)
        }
    }

    /// Look a name up among a parent's children and return the
    /// child's attributes: `ParentNotFound` when the parent is
    /// unknown, `ChildNotFound` when the name is absent. A caller
    /// that finds the parent's children empty populates them first
    /// (see [`AliyunDriveFileSystem::lookup_prepare`]).
    pub fn lookup(&self, parent: u64, name: &String) -> (r: Result<FileAttr, Error>)
        requires
            self.wf(),
        ensures
            match r {
                Err(e) => if !self.inodes@.contains_key(parent) {
                    e == Error::ParentNotFound
                } else {
                    e == Error::ChildNotFound && !has_cv_name(
                        cv(self.inodes@[parent].children@),
                        name@,
                    )
                },
                Ok(attr) => {
                    let ch = cv(self.inodes@[parent].children@);
                    &&& self.inodes@.contains_key(parent)
                    &&& has_cv_name(ch, name@)
                    &&& attr == spec_file_attr(
                        self.files@[cv_child(ch, name@)],
                        cv_child(ch, name@),
                        self.uid,
                        self.gid,
                    )
                },
            },
    {
        let node = match self.inodes.get(&parent) {
            Some(n) => n,
            None => {
                return Err(Error::ParentNotFound);
            },
        };
        let child = match find_child(&node.children, name) {
            Some(c) => c,
            None => {
                return Err(Error::ChildNotFound);
            },
        };
        proof {
            let ch = cv(self.inodes@[parent].children@);
            let j = cv_name_index(ch, name@);
            assert(ch[j].1 == child);
            assert(self.inodes@.contains_key(child));
        }
        let file = match self.files.get(&child) {
            Some(f) => f,
            None => unreached(),
        };
        Ok(file.to_file_attr(child, self.uid, self.gid))
    }

    /// The first step of a directory read: `NoEntry` when the inode
    /// is unknown; at offset zero, the remote identifier to list (the
    /// caller lists it, applies the listing, and then emits entries);
    /// at any other offset, `None` — the stored children are emitted
    /// as they stand.
    pub fn readdir_prepare(&self, ino: u64, offset: i64) -> (r: Result<Option<String>, Error>)
        requires
            self.wf(),
        ensures
            match r {
                Err(e) => e == Error::NoEntry && !self.inodes@.contains_key(ino),
                Ok(need) => self.inodes@.contains_key(ino) && match need {
                    Some(file_id) => offset == 0 && file_id == self.files@[ino].id,
                    None => offset != 0,
                },
            },
    {
        if self.inodes.get(&ino).is_none() {
            return Err(Error::NoEntry);
        }
        if offset == 0 {
            let file = match self.files.get(&ino) {
                Some(f) => f,
                None => unreached(),
            };
            Ok(Some(file.id.clone()))
        } else {
            Ok(None)
        }
    }

    /// The directory entries emitted for one `readdir` call: at
    /// offset zero, `.` and `..` followed by every child in stored
    /// order; at a non-zero offset, the children from that index on,
    /// with no dot entries. Each child entry carries its inode, its
    /// kind, and its record's name.
    pub fn readdir_entries(&self, ino: u64, offset: i64) -> (r: Result<
        Vec<(u64, FileKind, String)>,
        Error,
    >)
        requires
            self.wf(),
            offset >= 0,
        ensures
            match r {
                Err(e) => e == Error::NoEntry && !self.inodes@.contains_key(ino),
                Ok(entries) => {
                    let ch = cv(self.inodes@[ino].children@);
                    let skip = if offset == 0 {
                        0int
                    } else if offset <= ch.len() {
                        offset as int
                    } else {
                        ch.len() as int
                    };
                    let dots = if offset == 0 {
                        2int
                    } else {
                        0int
                    };
                    &&& self.inodes@.contains_key(ino)
                    &&& entries@.len() == dots + ch.len() - skip
                    &&& offset == 0 ==> {
                        &&& entries@[0].0 == ino && entries@[0].1 == FileKind::Directory
                            && entries@[0].2@ == "."@
                        &&& entries@[1].0 == self.inodes@[ino].parent && entries@[1].1
                            == FileKind::Directory && entries@[1].2@ == ".."@
                    }
                    &&& forall|j: int|
                        skip <= j < ch.len() ==> {
                            let e = #[trigger] entries@[dots + j - skip];
                            &&& e.0 == ch[j].1
                            &&& e.1 == spec_file_kind(self.files@[ch[j].1].kind)
                            &&& e.2@ == self.files@[ch[j].1].name@
                        }
                },
            },
    {
        let node = match self.inodes.get(&ino) {
            Some(n) => n,
            None => {
                return Err(Error::NoEntry);
            },
        };
        let mut entries: Vec<(u64, FileKind, String)> = Vec::new();
        if offset == 0 {
            entries.push((ino, FileKind::Directory, ".".to_owned()));
            entries.push((node.parent, FileKind::Directory, "..".to_owned()));
        }
        let total = node.children.len();
        let mut i: usize = if offset == 0 {
            0
        } else if offset as u64 <= total as u64 {
            offset as u64 as usize
        } else {
            total
        };
        let ghost skip = i as int;
        let ghost dots = entries@.len() as int;
        while i < total
            invariant
                self.wf(),
                self.inodes@.contains_key(ino),
                node == self.inodes@[ino],
                total == node.children@.len(),
                skip == (if offset == 0 {
                    0int
                } else if offset <= total {
                    offset as int
                } else {
                    total as int
                }),
                dots == (if offset == 0 {
                    2int
                } else {
                    0int
                }),
                skip <= i <= total,
                entries@.len() == dots + i - skip,
                forall|j: int|
                    skip <= j < i ==> {
                        let e = #[trigger] entries@[dots + j - skip];
                        &&& e.0 == cv(node.children@)[j].1
                        &&& e.1 == spec_file_kind(self.files@[cv(node.children@)[j].1].kind)
                        &&& e.2@ == self.files@[cv(node.children@)[j].1].name@
                    },
                dots > 0 ==> entries@[0].0 == ino && entries@[0].1 == FileKind::Directory
                    && entries@[0].2@ == "."@,
                dots > 0 ==> entries@[1].0 == node.parent && entries@[1].1 == FileKind::Directory
                    && entries@[1].2@ == ".."@,
            decreases total - i,
        {
            let child_ino = node.children[i].1;
            proof {
                assert(cv(node.children@)[i as int].1 == child_ino);
                assert(self.inodes@.contains_key(child_ino));
            }
            let file = match self.files.get(&child_ino) {
                Some(f) => f,
                None => unreached(),
            };
            let ghost pre = entries@;
            let kind_v = file_kind(file.kind);
            let name_v = file.name.clone();
            let ghost tup = (child_ino, kind_v, name_v);
            entries.push((child_ino, kind_v, name_v));
            i = i + 1;
            proof {
                assert(entries@ == pre.push(tup));
                assert forall|j: int| skip <= j < i implies {
                    let e = #[trigger] entries@[dots + j - skip];
                    &&& e.0 == cv(node.children@)[j].1
                    &&& e.1 == spec_file_kind(self.files@[cv(node.children@)[j].1].kind)
                    &&& e.2@ == self.files@[cv(node.children@)[j].1].name@
                } by {
                    if j < i - 1 {
                        assert(pre.push(tup)[dots + j - skip] == pre[dots + j - skip]);
                    } else {
                        assert(pre.push(tup)[dots + j - skip] == tup);
                        assert(cv(node.children@)[j].1 == child_ino);
                        assert(*file == self.files@[child_ino]);
                    }
                }
                assert(dots > 0 ==> entries@[0] == pre[0] && entries@[1] == pre[1]) by {
                    if dots > 0 {
                        assert(pre.push(tup)[0] == pre[0]);
                        assert(pre.push(tup)[1] == pre[1]);
                    }
                }
            }
        }
        Ok(entries)
    }

    /// Decide a file read: `NoEntry` when the inode is unknown; an
    /// empty hit at or past the end of the file; otherwise the size
    /// is clamped to the bytes remaining and the read cache decides
    /// between serving from its buffer and fetching one chunk.
    pub fn read(&self, ino: u64, fh: u64, offset: i64, size: u32) -> (r: Result<ReadPlan, Error>)
        requires
            self.wf(),
            offset >= 0,
        ensures
            match r {
                Err(e) => e == Error::NoEntry && (!self.files@.contains_key(ino) || (offset
                    < self.files@[ino].size && !self.file_cache.contains(fh))),
                Ok(p) => {
                    &&& self.files@.contains_key(ino)
                    &&& if offset >= self.files@[ino].size {
                        p matches ReadPlan::Hit(data) && bytes_view(data) == Seq::<u8>::empty()
                    } else {
                        let clamped = if size <= self.files@[ino].size - offset {
                            size as int
                        } else {
                            self.files@[ino].size - offset
                        };
                        let e = self.file_cache.entry(fh);
                        let buf = self.file_cache.buf(fh);
                        &&& self.file_cache.contains(fh)
                        &&& (p is Hit <==> self.file_cache.serves_from_buffer(
                            fh,
                            offset as u64,
                            clamped as u32,
                        ))
                        &&& if offset >= e.file_size {
                            p matches ReadPlan::Hit(data) && bytes_view(data)
                                == Seq::<u8>::empty()
                        } else if e.start_pos <= offset && offset + clamped <= e.start_pos
                            + buf.len() {
                            p matches ReadPlan::Hit(data) && bytes_view(data) == buf.subrange(
                                offset - e.start_pos,
                                offset - e.start_pos + clamped,
                            )
                        } else {
                            p matches ReadPlan::Fetch { file_id, start, len, serve } && {
                                &&& file_id == e.file_id
                                &&& start == offset as u64
                                &&& len == if self.file_cache.read_buffer_size <= e.file_size
                                    - offset {
                                    self.file_cache.read_buffer_size as int
                                } else {
                                    e.file_size - offset
                                }
                                &&& 0 < len <= e.file_size - offset
                                &&& serve == clamped
                            }
                        }
                    }
                },
            },
    {
        let file = match self.files.get(&ino) {
            Some(f) => f,
            None => {
                return Err(Error::NoEntry);
            },
        };
        if offset as u64 >= file.size {
            return Ok(ReadPlan::Hit(crate::buf::bytes_empty()));
        }
        let remain = file.size - offset as u64;
        let clamped: u32 = if size as u64 <= remain {
            size
        } else {
            remain as u32
        };
        self.file_cache.read(fh, offset as u64, clamped)
    }

    /// A read reaching past the end of the file returns exactly the
    /// bytes from the offset to the end. On the fetch path this holds
    /// whenever one chunk reaches the end of the file (the bytes
    /// remaining fit in the chunk size) and the server delivered the
    /// whole requested range: the served count — the smaller of the
    /// clamped size and the chunk length — is then the bytes
    /// remaining. A miss whose remaining bytes exceed the chunk size
    /// serves only one chunk.
    pub proof fn lemma_read_past_end_exact(
        file_size: u64,
        offset: u64,
        size: u32,
        read_buffer_size: usize,
    )
        requires
            offset < file_size,
            offset + size > file_size,
            file_size - offset <= read_buffer_size,
        ensures
            ({
                let clamped = if size <= file_size - offset {
                    size as int
                } else {
                    file_size - offset
                };
                let fetch_len = if read_buffer_size <= file_size - offset {
                    read_buffer_size as int
                } else {
                    file_size - offset
                };
                let served = if clamped <= fetch_len {
                    clamped
                } else {
                    fetch_len
                };
                served == file_size - offset
            }),
    {
    }

    /// Install a fetched chunk for a pending fetch plan and serve
    /// the read it was fetched for (see [`FileCache::apply_chunk`]).
    pub fn read_apply(&mut self, fh: u64, offset: u64, chunk: Bytes, size: u32) -> (data: Bytes)
        requires
            old(self).wf(),
            old(self).file_cache.contains(fh),
            offset < old(self).file_cache.entry(fh).file_size,
            bytes_view(chunk).len() <= old(self).file_cache.entry(fh).file_size - offset,
        ensures
            final(self).wf(),
            *final(self) == (AliyunDriveFileSystem {
                file_cache: final(self).file_cache,
                ..*old(self)
            }),
            final(self).file_cache.read_buffer_size == old(self).file_cache.read_buffer_size,
            final(self).file_cache.cache@ == old(self).file_cache.cache@.insert(
                fh,
                final(self).file_cache.cache@[fh],
            ),
            final(self).file_cache.entry(fh).file_id == old(self).file_cache.entry(fh).file_id,
            final(self).file_cache.entry(fh).file_size == old(self).file_cache.entry(
                fh,
            ).file_size,
            final(self).file_cache.entry(fh).start_pos == offset,
            final(self).file_cache.buf(fh) == bytes_view(chunk),
            bytes_view(data) == bytes_view(chunk).subrange(
                0,
                if size <= bytes_view(chunk).len() {
                    size as int
                } else {
                    bytes_view(chunk).len() as int
                },
            ),
    {
        self.file_cache.apply_chunk(fh, offset, chunk, size)
    }

    /// Drop a file handle from the read cache; always succeeds.
    pub fn release(&mut self, fh: u64)
        requires
            old(self).wf(),
        ensures
            final(self).wf(),
            *final(self) == (AliyunDriveFileSystem {
                file_cache: final(self).file_cache,
                ..*old(self)
            }),
            final(self).file_cache.read_buffer_size == old(self).file_cache.read_buffer_size,
            final(self).file_cache.cache@ == old(self).file_cache.cache@.remove(fh),
    {
        self.file_cache.release(fh);
    }
}

} // verus!

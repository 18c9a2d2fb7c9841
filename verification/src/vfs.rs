//! In-memory virtual filesystem: an append-only inode table holding
//! directories, files with opaque content keys, symbolic links, and device
//! nodes, together with the budgeted path walk that resolves guest paths.

use vstd::prelude::*;

use crate::errors::VFSError;
use crate::path::{split_path, split_path_spec, bytes_eq, SLASH};
use vstd::slice::slice_to_vec;

verus! {

/// Inode metadata. The link count is maintained by the filesystem itself:
/// it always equals the number of directory entries that reference the
/// inode.
#[derive(Debug, Clone, Copy, PartialEq, Eq, Structural)]
pub struct Stat {
    pub mode: u32,
    pub uid: u64,
    pub gid: u64,
    pub mtime: u64,
    pub nlink: u64,
    pub size: u64,
}

impl Stat {
    /// The all-zero metadata record.
    pub fn zeroed() -> (r: Stat)
        ensures
            r == Stat::zeroed_spec(),
    {
        Stat { mode: 0, uid: 0, gid: 0, mtime: 0, nlink: 0, size: 0 }
    }

    /// Specification of `zeroed`.
    pub open spec fn zeroed_spec() -> Stat {
        Stat { mode: 0, uid: 0, gid: 0, mtime: 0, nlink: 0, size: 0 }
    }
}

/// Opaque token that the content storage can resolve to file bytes.
#[derive(Debug, Clone, Copy, PartialEq, Eq, Hash, Structural)]
pub struct StorageKey(pub u64);

/// An open-file handle: an inode index. It does not own inode storage.
#[derive(Debug, Clone, Copy, PartialEq, Eq, Structural)]
pub struct VFile {
    inode: usize,
}

impl VFile {
    /// The inode index this handle designates.
    pub fn index(&self) -> (r: usize)
        ensures
            r as nat == self@,
    {
        self.inode
    }

    /// The inode index, as a mathematical value.
    pub closed spec fn view(&self) -> nat {
        self.inode as nat
    }
}

/// One directory entry: a name and the inode index it references.
#[derive(Debug, Clone, PartialEq)]
pub(crate) struct DirEntry {
    pub name: Vec<u8>,
    pub node: usize,
}

/// Mathematical image of a directory entry.
pub struct DirEntryView {
    pub name: Seq<u8>,
    pub node: nat,
}

impl View for DirEntry {
    type V = DirEntryView;

    closed spec fn view(&self) -> DirEntryView {
        DirEntryView { name: self.name@, node: self.node as nat }
    }
}

/// The payload of an inode.
#[derive(Debug, Clone, PartialEq)]
pub(crate) enum Node {
    Directory(Vec<DirEntry>),
    EmptyFile,
    NormalFile(StorageKey),
    SymbolicLink(Vec<u8>),
    Char(u32, u32),
    Block(u32, u32),
    Fifo,
}

/// Mathematical image of an inode payload.
pub enum NodeView {
    Directory(Seq<DirEntryView>),
    EmptyFile,
    NormalFile(StorageKey),
    SymbolicLink(Seq<u8>),
    Char(u32, u32),
    Block(u32, u32),
    Fifo,
}

impl View for Node {
    type V = NodeView;

    closed spec fn view(&self) -> NodeView {
        match self {
            Node::Directory(es) => NodeView::Directory(es@.map_values(|e: DirEntry| e@)),
            Node::EmptyFile => NodeView::EmptyFile,
            Node::NormalFile(k) => NodeView::NormalFile(*k),
            Node::SymbolicLink(t) => NodeView::SymbolicLink(t@),
            Node::Char(a, b) => NodeView::Char(*a, *b),
            Node::Block(a, b) => NodeView::Block(*a, *b),
            Node::Fifo => NodeView::Fifo,
        }
    }
}

/// One inode: metadata plus payload.
#[derive(Debug, Clone, PartialEq)]
pub(crate) struct INode {
    pub stat: Stat,
    pub data: Node,
}

/// Mathematical image of an inode.
pub struct INodeView {
    pub stat: Stat,
    pub node: NodeView,
}

impl View for INode {
    type V = INodeView;

    closed spec fn view(&self) -> INodeView {
        INodeView { stat: self.stat, node: self.data@ }
    }
}

/// Mathematical image of a whole filesystem: the inode table.
pub type FsView = Seq<Option<INodeView>>;

/// The filesystem: an append-only inode table whose root is index 0.
#[derive(Debug, Clone, PartialEq)]
pub struct Filesystem {
    inodes: Vec<Option<INode>>,
}

impl View for Filesystem {
    type V = FsView;

    closed spec fn view(&self) -> FsView {
        self.inodes@.map_values(
            |o: Option<INode>|
                match o {
                    Some(n) => Some(n@),
                    None => None,
                },
        )
    }
}

/// An ephemeral parent/child pair produced by one step of a path walk.
#[derive(Debug, Clone, Copy)]
pub struct DirEntryRef {
    pub parent: usize,
    pub child: usize,
}

/// Mathematical image of a walk step result.
pub struct EntryRefView {
    pub parent: nat,
    pub child: nat,
}

impl View for DirEntryRef {
    type V = EntryRefView;

    open spec fn view(&self) -> EntryRefView {
        EntryRefView { parent: self.parent as nat, child: self.child as nat }
    }
}

/// Budget for one public filesystem call: a path walk may look up at most
/// `path_segment` names and dereference at most `symbolic_link` links.
#[derive(Debug, Clone, Copy, PartialEq, Eq, Structural)]
pub struct Limits {
    pub path_segment: usize,
    pub symbolic_link: usize,
}

/// Initial name-lookup budget of a path walk.
pub const PATH_SEGMENT_LIMIT: usize = 1000;

/// Initial symbolic-link budget of a path walk.
pub const SYMBOLIC_LINK_LIMIT: usize = 50;

impl Limits {
    /// A fresh budget, granted to each public filesystem call.
    pub fn reset() -> (r: Limits)
        ensures
            r.path_segment == PATH_SEGMENT_LIMIT,
            r.symbolic_link == SYMBOLIC_LINK_LIMIT,
    {
        Limits { path_segment: PATH_SEGMENT_LIMIT, symbolic_link: SYMBOLIC_LINK_LIMIT }
    }

    /// Consume one name lookup, or fail when the budget is spent.
    pub fn take_path_segment(&mut self) -> (r: Result<(), VFSError>)
        ensures
            old(self).path_segment > 0 ==> r is Ok
                && final(self).path_segment == old(self).path_segment - 1
                && final(self).symbolic_link == old(self).symbolic_link,
            old(self).path_segment == 0 ==> r == Result::<(), VFSError>::Err(
                VFSError::PathSegmentLimitExceeded,
            ) && *final(self) == *old(self),
    {
        if self.path_segment > 0 {
            self.path_segment = self.path_segment - 1;
            Ok(())
        } else {
            Err(VFSError::PathSegmentLimitExceeded)
        }
    }

    /// Consume one symbolic-link dereference, or fail when the budget is
    /// spent.
    pub fn take_symbolic_link(&mut self) -> (r: Result<(), VFSError>)
        ensures
            old(self).symbolic_link > 0 ==> r is Ok
                && final(self).symbolic_link == old(self).symbolic_link - 1
                && final(self).path_segment == old(self).path_segment,
            old(self).symbolic_link == 0 ==> r == Result::<(), VFSError>::Err(
                VFSError::SymbolicLinkLimitExceeded,
            ) && *final(self) == *old(self),
    {
        if self.symbolic_link > 0 {
            self.symbolic_link = self.symbolic_link - 1;
            Ok(())
        } else {
            Err(VFSError::SymbolicLinkLimitExceeded)
        }
    }
}

/// Look up `name` among directory entries: the first entry with that name,
/// scanned front to back.
pub open spec fn dir_lookup(es: Seq<DirEntryView>, name: Seq<u8>) -> Option<nat>
    decreases es.len(),
{
    if es.len() == 0 {
        None
    } else if es[0].name == name {
        Some(es[0].node)
    } else {
        dir_lookup(es.skip(1), name)
    }
}

/// The entry slot holding `name`, if any: the first index whose entry is
/// named `name`.
pub open spec fn dir_index_of(es: Seq<DirEntryView>, name: Seq<u8>) -> int
    decreases es.len(),
{
    if es.len() == 0 {
        -1
    } else if es[0].name == name {
        0
    } else if dir_index_of(es.skip(1), name) == -1 {
        -1
    } else {
        1 + dir_index_of(es.skip(1), name)
    }
}

pub proof fn lemma_dir_index_of(es: Seq<DirEntryView>, name: Seq<u8>)
    ensures
        dir_index_of(es, name) == -1 <==> dir_lookup(es, name) is None,
        dir_index_of(es, name) != -1 ==> {
            let k = dir_index_of(es, name);
            &&& 0 <= k < es.len()
            &&& es[k].name == name
            &&& dir_lookup(es, name) == Some(es[k].node)
            &&& forall|j: int| 0 <= j < k ==> es[j].name != name
        },
    decreases es.len(),
{
    if es.len() > 0 && es[0].name != name {
        lemma_dir_index_of(es.skip(1), name);
        if dir_index_of(es.skip(1), name) != -1 {
            let k = dir_index_of(es, name);
            assert(es[k] == es.skip(1)[k - 1]);
            assert forall|j: int| 0 <= j < k implies es[j].name != name by {
                if j > 0 {
                    assert(es[j] == es.skip(1)[j - 1]);
                }
            }
        }
    }
}


/// A successful walk step: the entry reached and the budgets that remain.
pub struct WalkOk {
    pub entry: EntryRefView,
    pub ps: nat,
    pub sl: nat,
}

/// The inode stored at index `i`, or `UnallocNode` when the slot is out of
/// range or empty.
pub open spec fn node_at(v: FsView, i: nat) -> Result<INodeView, VFSError> {
    if i < v.len() {
        match v[i as int] {
            Some(n) => Ok(n),
            None => Err(VFSError::UnallocNode),
        }
    } else {
        Err(VFSError::UnallocNode)
    }
}

/// One lookup step of a path walk: consume one segment of budget, then
/// either restart at the root (segment `"/"`) or look the name up in the
/// current directory.
pub open spec fn seg_step_spec(v: FsView, ps: nat, sl: nat, parent: nat, seg: Seq<u8>)
    -> Result<WalkOk, VFSError>
{
    if ps == 0 {
        Err(VFSError::PathSegmentLimitExceeded)
    } else {
        let ps1 = (ps - 1) as nat;
        if seg == seq![SLASH] {
            Ok(WalkOk { entry: EntryRefView { parent: 0, child: 0 }, ps: ps1, sl })
        } else {
            match node_at(v, parent) {
                Err(e) => Err(e),
                Ok(n) => match n.node {
                    NodeView::Directory(es) => match dir_lookup(es, seg) {
                        None => Err(VFSError::NotFound),
                        Some(c) => Ok(
                            WalkOk { entry: EntryRefView { parent, child: c }, ps: ps1, sl },
                        ),
                    },
                    _ => Err(VFSError::DirectoryExpected),
                },
            }
        }
    }
}

/// Chase a chain of symbolic links starting at `entry`, spending one link
/// of budget per hop; each target is walked relative to the link's parent
/// directory. Stops at the first node that is not a symbolic link.
pub open spec fn resolve_symlinks_spec(v: FsView, ps: nat, sl: nat, entry: EntryRefView)
    -> Result<WalkOk, VFSError>
    decreases sl, 0nat, ps, 0nat,
{
    match node_at(v, entry.child) {
        Err(e) => Err(e),
        Ok(n) => match n.node {
            NodeView::SymbolicLink(target) => {
                if sl == 0 {
                    Err(VFSError::SymbolicLinkLimitExceeded)
                } else {
                    let sl1 = (sl - 1) as nat;
                    match resolve_path_spec(v, ps, sl1, entry.parent, split_path_spec(target)) {
                        Err(e) => Err(e),
                        Ok(w) => {
                            let ps2 = if w.ps <= ps { w.ps } else { ps };
                            let sl2 = if w.sl <= sl1 { w.sl } else { sl1 };
                            resolve_symlinks_spec(v, ps2, sl2, w.entry)
                        },
                    }
                }
            },
            _ => Ok(WalkOk { entry, ps, sl }),
        },
    }
}

/// Walk the remaining segments `segs[i..]` from `entry`: before each
/// lookup, resolve any symbolic link on the entry reached so far.
pub open spec fn walk_cont_spec(
    v: FsView,
    ps: nat,
    sl: nat,
    entry: EntryRefView,
    segs: Seq<Seq<u8>>,
    i: nat,
) -> Result<WalkOk, VFSError>
    decreases sl, 1nat, ps, segs.len() - i,
{
    if i >= segs.len() {
        Ok(WalkOk { entry, ps, sl })
    } else {
        match resolve_symlinks_spec(v, ps, sl, entry) {
            Err(e) => Err(e),
            Ok(w) => {
                let psa = if w.ps <= ps { w.ps } else { ps };
                let sla = if w.sl <= sl { w.sl } else { sl };
                match seg_step_spec(v, psa, sla, w.entry.child, segs[i as int]) {
                    Err(e) => Err(e),
                    Ok(w2) => walk_cont_spec(v, w2.ps, w2.sl, w2.entry, segs, i + 1),
                }
            },
        }
    }
}

/// Walk a whole segment list from the directory `parent`. Symbolic links
/// are followed between steps but neither before the first segment nor on
/// the final entry.
pub open spec fn resolve_path_spec(v: FsView, ps: nat, sl: nat, parent: nat, segs: Seq<Seq<u8>>)
    -> Result<WalkOk, VFSError>
    decreases sl, 2nat, ps, 0nat,
{
    if segs.len() == 0 {
        Ok(WalkOk { entry: EntryRefView { parent, child: parent }, ps, sl })
    } else {
        match seg_step_spec(v, ps, sl, parent, segs[0]) {
            Err(e) => Err(e),
            Ok(w) => walk_cont_spec(v, w.ps, w.sl, w.entry, segs, 1),
        }
    }
}

/// A walk never regains budget: whatever a step returns is bounded by what
/// it was given.
pub proof fn lemma_resolve_symlinks_budgets(v: FsView, ps: nat, sl: nat, entry: EntryRefView)
    ensures
        resolve_symlinks_spec(v, ps, sl, entry) matches Ok(w) ==> w.ps <= ps && w.sl <= sl,
    decreases sl, 0nat, ps, 0nat,
{
    match node_at(v, entry.child) {
        Err(_) => {},
        Ok(n) => match n.node {
            NodeView::SymbolicLink(target) => {
                if sl > 0 {
                    let sl1 = (sl - 1) as nat;
                    lemma_resolve_path_budgets(v, ps, sl1, entry.parent, split_path_spec(target));
                    match resolve_path_spec(v, ps, sl1, entry.parent, split_path_spec(target)) {
                        Err(_) => {},
                        Ok(w) => {
                            let ps2 = if w.ps <= ps { w.ps } else { ps };
                            let sl2 = if w.sl <= sl1 { w.sl } else { sl1 };
                            lemma_resolve_symlinks_budgets(v, ps2, sl2, w.entry);
                        },
                    }
                }
            },
            _ => {},
        },
    }
}

/// Budget bound for `walk_cont_spec`.
pub proof fn lemma_walk_cont_budgets(
    v: FsView,
    ps: nat,
    sl: nat,
    entry: EntryRefView,
    segs: Seq<Seq<u8>>,
    i: nat,
)
    ensures
        walk_cont_spec(v, ps, sl, entry, segs, i) matches Ok(w) ==> w.ps <= ps && w.sl <= sl,
    decreases sl, 1nat, ps, segs.len() - i,
{
    if i < segs.len() {
        lemma_resolve_symlinks_budgets(v, ps, sl, entry);
        match resolve_symlinks_spec(v, ps, sl, entry) {
            Err(_) => {},
            Ok(w) => {
                let psa = if w.ps <= ps { w.ps } else { ps };
                let sla = if w.sl <= sl { w.sl } else { sl };
                match seg_step_spec(v, psa, sla, w.entry.child, segs[i as int]) {
                    Err(_) => {},
                    Ok(w2) => {
                        lemma_walk_cont_budgets(v, w2.ps, w2.sl, w2.entry, segs, i + 1);
                    },
                }
            },
        }
    }
}

/// Budget bound for `resolve_path_spec`.
pub proof fn lemma_resolve_path_budgets(
    v: FsView,
    ps: nat,
    sl: nat,
    parent: nat,
    segs: Seq<Seq<u8>>,
)
    ensures
        resolve_path_spec(v, ps, sl, parent, segs) matches Ok(w) ==> w.ps <= ps && w.sl <= sl,
    decreases sl, 2nat, ps, 0nat,
{
    if segs.len() > 0 {
        match seg_step_spec(v, ps, sl, parent, segs[0]) {
            Err(_) => {},
            Ok(w) => {
                lemma_walk_cont_budgets(v, w.ps, w.sl, w.entry, segs, 1);
            },
        }
    }
}

/// Opening a path: walk its segments from the root, then follow any
/// symbolic link on the final entry.
pub open spec fn open_spec(v: FsView, p: Seq<u8>) -> Result<nat, VFSError> {
    match resolve_path_spec(
        v,
        PATH_SEGMENT_LIMIT as nat,
        SYMBOLIC_LINK_LIMIT as nat,
        0,
        split_path_spec(p),
    ) {
        Err(e) => Err(e),
        Ok(w) => match resolve_symlinks_spec(v, w.ps, w.sl, w.entry) {
            Err(e) => Err(e),
            Ok(w2) => Ok(w2.entry.child),
        },
    }
}

/// Opening a path without following a symbolic link at its tail.
pub open spec fn open_nofollow_spec(v: FsView, p: Seq<u8>) -> Result<nat, VFSError> {
    match resolve_path_spec(
        v,
        PATH_SEGMENT_LIMIT as nat,
        SYMBOLIC_LINK_LIMIT as nat,
        0,
        split_path_spec(p),
    ) {
        Err(e) => Err(e),
        Ok(w) => Ok(w.entry.child),
    }
}

impl Filesystem {
    /// The inode at `num`, or `UnallocNode`.
    fn get_inode(&self, num: usize) -> (r: Result<&INode, VFSError>)
        ensures
            match r {
                Ok(n) => node_at(self@, num as nat) == Ok::<INodeView, VFSError>(n@),
                Err(e) => node_at(self@, num as nat) == Err::<INodeView, VFSError>(e),
            },
    {
        if num < self.inodes.len() {
            match &self.inodes[num] {
                Some(n) => Ok(n),
                None => Err(VFSError::UnallocNode),
            }
        } else {
            Err(VFSError::UnallocNode)
        }
    }

    /// One lookup step of a path walk.
    fn resolve_path_segment(&self, limits: &mut Limits, parent: usize, part: &[u8])
        -> (r: Result<DirEntryRef, VFSError>)
        ensures
            ({
                let sr = seg_step_spec(
                    self@,
                    old(limits).path_segment as nat,
                    old(limits).symbolic_link as nat,
                    parent as nat,
                    part@,
                );
                match r {
                    Ok(e2) => sr == Ok::<WalkOk, VFSError>(
                        WalkOk {
                            entry: e2@,
                            ps: final(limits).path_segment as nat,
                            sl: final(limits).symbolic_link as nat,
                        },
                    ),
                    Err(e) => sr == Err::<WalkOk, VFSError>(e),
                }
            }),
            final(limits).symbolic_link == old(limits).symbolic_link,
            old(limits).path_segment > 0 ==> final(limits).path_segment == old(
                limits,
            ).path_segment - 1,
            old(limits).path_segment == 0 ==> *final(limits) == *old(limits),
    {
        let ghost sl0 = limits.symbolic_link as nat;
        limits.take_path_segment()?;
        if part.len() == 1 && part[0] == SLASH {
            proof {
                assert(part@ =~= seq![SLASH]);
            }
            Ok(DirEntryRef { parent: 0, child: 0 })
        } else {
            proof {
                assert(part@ != seq![SLASH]);
            }
            match self.get_inode(parent) {
                Err(e) => Err(e),
                Ok(n) => match &n.data {
                    Node::Directory(es) => match dir_find(es, part) {
                        Some(c) => Ok(DirEntryRef { parent, child: c }),
                        None => Err(VFSError::NotFound),
                    },
                    _ => Err(VFSError::DirectoryExpected),
                },
            }
        }
    }

    /// Chase symbolic links at `entry` until a non-link node is reached or
    /// a budget runs out.
    fn resolve_symlinks(&self, limits: &mut Limits, entry: DirEntryRef)
        -> (r: Result<DirEntryRef, VFSError>)
        ensures
            ({
                let sr = resolve_symlinks_spec(
                    self@,
                    old(limits).path_segment as nat,
                    old(limits).symbolic_link as nat,
                    entry@,
                );
                match r {
                    Ok(e2) => sr == Ok::<WalkOk, VFSError>(
                        WalkOk {
                            entry: e2@,
                            ps: final(limits).path_segment as nat,
                            sl: final(limits).symbolic_link as nat,
                        },
                    ),
                    Err(e) => sr == Err::<WalkOk, VFSError>(e),
                }
            }),
        decreases limits.symbolic_link, 0nat, limits.path_segment, 0nat,
    {
        match self.get_inode(entry.child) {
            Err(e) => Err(e),
            Ok(n) => match &n.data {
                Node::SymbolicLink(target) => {
                limits.take_symbolic_link()?;
                let segs = split_path(target.as_slice());
                let ghost ps1 = limits.path_segment as nat;
                let ghost sl1 = limits.symbolic_link as nat;
                let e1 = match self.resolve_path(limits, entry.parent, &segs) {
                    Ok(e1) => e1,
                    Err(e) => {
                        return Err(e);
                    },
                };
                proof {
                    lemma_resolve_path_budgets(
                        self@,
                        ps1,
                        sl1,
                        entry.parent as nat,
                        split_path_spec(target@),
                    );
                }
                self.resolve_symlinks(limits, e1)
                },
                _ => Ok(entry),
            },
        }
    }

    /// Walk the remaining segments `segs[i..]`.
    fn resolve_path_cont(
        &self,
        limits: &mut Limits,
        entry: DirEntryRef,
        segs: &Vec<Vec<u8>>,
        i: usize,
    ) -> (r: Result<DirEntryRef, VFSError>)
        ensures
            ({
                let sr = walk_cont_spec(
                    self@,
                    old(limits).path_segment as nat,
                    old(limits).symbolic_link as nat,
                    entry@,
                    segs@.map_values(|s: Vec<u8>| s@),
                    i as nat,
                );
                match r {
                    Ok(e2) => sr == Ok::<WalkOk, VFSError>(
                        WalkOk {
                            entry: e2@,
                            ps: final(limits).path_segment as nat,
                            sl: final(limits).symbolic_link as nat,
                        },
                    ),
                    Err(e) => sr == Err::<WalkOk, VFSError>(e),
                }
            }),
        decreases limits.symbolic_link, 1nat, limits.path_segment, segs@.len() - i,
    {
        if i >= segs.len() {
            Ok(entry)
        } else {
            let ghost ps0 = limits.path_segment as nat;
            let ghost sl0 = limits.symbolic_link as nat;
            let e1 = match self.resolve_symlinks(limits, entry) {
                Ok(e1) => e1,
                Err(e) => {
                    return Err(e);
                },
            };
            proof {
                lemma_resolve_symlinks_budgets(self@, ps0, sl0, entry@);
            }
            let e2 = match self.resolve_path_segment(limits, e1.child, segs[i].as_slice()) {
                Ok(e2) => e2,
                Err(e) => {
                    return Err(e);
                },
            };
            self.resolve_path_cont(limits, e2, segs, i + 1)
        }
    }

    /// Walk a whole segment list from the directory `parent`.
    fn resolve_path(&self, limits: &mut Limits, parent: usize, segs: &Vec<Vec<u8>>)
        -> (r: Result<DirEntryRef, VFSError>)
        ensures
            ({
                let sr = resolve_path_spec(
                    self@,
                    old(limits).path_segment as nat,
                    old(limits).symbolic_link as nat,
                    parent as nat,
                    segs@.map_values(|s: Vec<u8>| s@),
                );
                match r {
                    Ok(e2) => sr == Ok::<WalkOk, VFSError>(
                        WalkOk {
                            entry: e2@,
                            ps: final(limits).path_segment as nat,
                            sl: final(limits).symbolic_link as nat,
                        },
                    ),
                    Err(e) => sr == Err::<WalkOk, VFSError>(e),
                }
            }),
        decreases limits.symbolic_link, 2nat, limits.path_segment, 0nat,
    {
        if segs.len() == 0 {
            Ok(DirEntryRef { parent, child: parent })
        } else {
            let e = match self.resolve_path_segment(limits, parent, segs[0].as_slice()) {
                Ok(e) => e,
                Err(e) => {
                    return Err(e);
                },
            };
            self.resolve_path_cont(limits, e, segs, 1)
        }
    }
}

/// Find `name` in a directory's entry list.
fn dir_find(es: &Vec<DirEntry>, name: &[u8]) -> (r: Option<usize>)
    ensures
        ({
            let lv = dir_lookup(es@.map_values(|e: DirEntry| e@), name@);
            match r {
                Some(c) => lv == Some(c as nat),
                None => lv is None,
            }
        }),
{
    let ghost full = es@.map_values(|e: DirEntry| e@);
    proof {
        assert(full.skip(0) =~= full);
    }
    let n = es.len();
    let mut i: usize = 0;
    while i < n
        invariant
            0 <= i <= n,
            n == es@.len(),
            full == es@.map_values(|e: DirEntry| e@),
            dir_lookup(full.skip(i as int), name@) == dir_lookup(full, name@),
        decreases n - i,
    {
        if bytes_eq(es[i].name.as_slice(), name) {
            proof {
                assert(full.skip(i as int)[0] == full[i as int]);
            }
            return Some(es[i].node);
        }
        proof {
            assert(full.skip(i as int)[0] == full[i as int]);
            assert(full.skip(i as int).skip(1) =~= full.skip(i as int + 1));
        }
        i = i + 1;
    }
    proof {
        assert(full.skip(n as int) =~= Seq::<DirEntryView>::empty());
    }
    None
}


/// A directory entry is well-formed when it references an allocated slot.
pub open spec fn entry_ok(v: FsView, e: DirEntryView) -> bool {
    e.node < v.len() && v[e.node as int] is Some
}

/// No two entries of a directory share a name.
pub open spec fn dir_names_unique(es: Seq<DirEntryView>) -> bool {
    forall|k1: int, k2: int|
        0 <= k1 < es.len() && 0 <= k2 < es.len() && k1 != k2 ==> es[k1].name != es[k2].name
}

/// Every entry of a directory references an allocated inode, and names are
/// unique.
pub open spec fn dir_ok(v: FsView, es: Seq<DirEntryView>) -> bool {
    &&& forall|k: int| 0 <= k < es.len() ==> entry_ok(v, #[trigger] es[k])
    &&& dir_names_unique(es)
}

/// A single inode slot is well-formed.
pub open spec fn slot_ok(v: FsView, i: int) -> bool {
    match v[i] {
        Some(n) => match n.node {
            NodeView::Directory(es) => dir_ok(v, es),
            _ => true,
        },
        None => true,
    }
}

/// Structural well-formedness: the root is inode 0 and a directory, and
/// every directory's entries reference allocated inodes under unique names.
pub open spec fn fs_shape_wf(v: FsView) -> bool {
    &&& v.len() >= 1
    &&& v[0] is Some
    &&& v[0]->Some_0.node is Directory
    &&& forall|i: int| 0 <= i < v.len() ==> #[trigger] slot_ok(v, i)
}

/// How many entries of one directory reference inode `n`.
pub open spec fn dir_count(es: Seq<DirEntryView>, n: nat) -> nat
    decreases es.len(),
{
    if es.len() == 0 {
        0
    } else {
        dir_count(es.drop_last(), n) + if es.last().node == n { 1nat } else { 0nat }
    }
}

/// The contribution of slot `i` to the reference count of inode `n`.
pub open spec fn slot_count(v: FsView, i: int, n: nat) -> nat {
    match v[i] {
        Some(nd) => match nd.node {
            NodeView::Directory(es) => dir_count(es, n),
            _ => 0,
        },
        None => 0,
    }
}

/// How many directory entries among slots `[0, k)` reference inode `n`.
pub open spec fn count_refs_upto(v: FsView, n: nat, k: int) -> nat
    decreases k,
{
    if k <= 0 {
        0
    } else {
        count_refs_upto(v, n, k - 1) + slot_count(v, k - 1, n)
    }
}

/// How many directory entries in the whole filesystem reference inode `n`.
pub open spec fn count_refs(v: FsView, n: nat) -> nat {
    count_refs_upto(v, n, v.len() as int)
}

/// Link counts are true: every allocated inode's `nlink` equals the number
/// of directory entries that reference it.
pub open spec fn fs_nlink_wf(v: FsView) -> bool {
    forall|i: int|
        0 <= i < v.len() && v[i] is Some ==> (#[trigger] v[i])->Some_0.stat.nlink
            == count_refs(v, i as nat)
}

/// Full well-formedness of a filesystem.
pub open spec fn fs_wf(v: FsView) -> bool {
    fs_shape_wf(v) && fs_nlink_wf(v)
}

/// The view of a freshly created filesystem: one root directory holding
/// only its self-entry.
pub open spec fn fresh_fs_view() -> FsView {
    seq![
        Some(
            INodeView {
                stat: Stat { mode: 0o755, uid: 0, gid: 0, mtime: 0, nlink: 1, size: 0 },
                node: NodeView::Directory(seq![DirEntryView { name: seq![46u8], node: 0 }]),
            },
        ),
    ]
}

/// What `vfile_stat` returns: the metadata of an allocated inode, and
/// `NotFound` otherwise.
pub open spec fn vfile_stat_spec(v: FsView, i: nat) -> Result<Stat, VFSError> {
    match node_at(v, i) {
        Ok(n) => Ok(n.stat),
        Err(_) => Err(VFSError::NotFound),
    }
}

/// Whether handle index `i` designates a regular (or empty) file.
pub open spec fn is_file_spec(v: FsView, i: nat) -> bool {
    match node_at(v, i) {
        Ok(n) => n.node is NormalFile || n.node is EmptyFile,
        Err(_) => false,
    }
}

/// Whether handle index `i` designates a directory.
pub open spec fn is_directory_spec(v: FsView, i: nat) -> bool {
    match node_at(v, i) {
        Ok(n) => n.node is Directory,
        Err(_) => false,
    }
}

/// What `vfile_storage` returns: `None` for an empty file, the content key
/// for a regular file, and an error otherwise.
pub open spec fn vfile_storage_spec(v: FsView, i: nat) -> Result<Option<StorageKey>, VFSError> {
    match node_at(v, i) {
        Ok(n) => match n.node {
            NodeView::EmptyFile => Ok(None),
            NodeView::NormalFile(k) => Ok(Some(k)),
            _ => Err(VFSError::FileExpected),
        },
        Err(_) => Err(VFSError::NotFound),
    }
}

impl Filesystem {
    /// Well-formedness of this filesystem.
    pub open spec fn wf(&self) -> bool {
        fs_wf(self@)
    }

    /// A fresh filesystem: inode 0 is the root directory, containing only
    /// its self-entry `"."`.
    pub fn new() -> (r: Filesystem)
        ensures
            r@ == fresh_fs_view(),
            r.wf(),
    {
        let mut dot: Vec<u8> = Vec::new();
        dot.push(46);
        let mut entries: Vec<DirEntry> = Vec::new();
        entries.push(DirEntry { name: dot, node: 0 });
        let root = INode {
            stat: Stat { mode: 0o755, uid: 0, gid: 0, mtime: 0, nlink: 1, size: 0 },
            data: Node::Directory(entries),
        };
        let mut inodes: Vec<Option<INode>> = Vec::new();
        inodes.push(Some(root));
        let fs = Filesystem { inodes };
        proof {
            let ev = DirEntryView { name: seq![46u8], node: 0 };
            assert(entries@.map_values(|e: DirEntry| e@) =~= seq![ev]);
            assert(fs@ =~~= fresh_fs_view());
            let v = fs@;
            let es = seq![ev];
            assert(v[0]->Some_0.node->Directory_0 == es);
            assert(entry_ok(v, es[0]));
            assert(dir_ok(v, es));
            assert forall|i: int| 0 <= i < v.len() implies #[trigger] slot_ok(v, i) by {
                assert(i == 0);
            }
            assert(dir_count(es, 0) == 1) by {
                assert(es.drop_last() =~= Seq::<DirEntryView>::empty());
                assert(dir_count(Seq::<DirEntryView>::empty(), 0) == 0);
                assert(es.last() == ev);
            }
            assert(count_refs_upto(v, 0, 0) == 0);
            assert(slot_count(v, 0, 0) == 1);
            assert(count_refs_upto(v, 0, 1) == 1);
            assert(count_refs(v, 0) == 1);
            assert forall|i: int| 0 <= i < v.len() && v[i] is Some implies (#[trigger] v[i])->Some_0.stat.nlink
                == count_refs(v, i as nat) by {
                assert(i == 0);
            }
        }
        fs
    }

    /// Resolve `path` from the root, following symbolic links both between
    /// segments and at the tail.
    pub fn open(&self, path: &[u8]) -> (r: Result<VFile, VFSError>)
        ensures
            match r {
                Ok(f) => open_spec(self@, path@) == Ok::<nat, VFSError>(f@),
                Err(e) => open_spec(self@, path@) == Err::<nat, VFSError>(e),
            },
    {
        self.open_at(None, path)
    }

    /// Resolve `path` like `open`. The directory handle is accepted for
    /// interface compatibility; resolution always starts at the root.
    pub fn open_at(&self, at_dir: Option<&VFile>, path: &[u8]) -> (r: Result<VFile, VFSError>)
        ensures
            match r {
                Ok(f) => open_spec(self@, path@) == Ok::<nat, VFSError>(f@),
                Err(e) => open_spec(self@, path@) == Err::<nat, VFSError>(e),
            },
    {
        let mut limits = Limits::reset();
        let segs = split_path(path);
        let entry = match self.resolve_path(&mut limits, 0, &segs) {
            Ok(entry) => entry,
            Err(e) => {
                return Err(e);
            },
        };
        let entry = match self.resolve_symlinks(&mut limits, entry) {
            Ok(entry) => entry,
            Err(e) => {
                return Err(e);
            },
        };
        Ok(VFile { inode: entry.child })
    }

    /// Resolve `path` from the root without following a symbolic link at
    /// the tail.
    pub fn open_nofollow(&self, path: &[u8]) -> (r: Result<VFile, VFSError>)
        ensures
            match r {
                Ok(f) => open_nofollow_spec(self@, path@) == Ok::<nat, VFSError>(f@),
                Err(e) => open_nofollow_spec(self@, path@) == Err::<nat, VFSError>(e),
            },
    {
        let mut limits = Limits::reset();
        let segs = split_path(path);
        let entry = match self.resolve_path(&mut limits, 0, &segs) {
            Ok(entry) => entry,
            Err(e) => {
                return Err(e);
            },
        };
        Ok(VFile { inode: entry.child })
    }

    /// A handle on the root directory.
    pub fn open_root(&self) -> (r: VFile)
        requires
            fs_shape_wf(self@),
        ensures
            r@ == 0,
            is_directory_spec(self@, 0),
    {
        VFile { inode: 0 }
    }

    /// The metadata of the inode a handle designates.
    pub fn vfile_stat(&self, f: &VFile) -> (r: Result<Stat, VFSError>)
        ensures
            r == vfile_stat_spec(self@, f@),
    {
        match self.get_inode(f.inode) {
            Ok(n) => Ok(n.stat),
            Err(_) => Err(VFSError::NotFound),
        }
    }

    /// Whether the handle designates a regular or empty file.
    pub fn is_file(&self, f: &VFile) -> (r: bool)
        ensures
            r == is_file_spec(self@, f@),
    {
        match self.get_inode(f.inode) {
            Ok(n) => match &n.data {
                Node::NormalFile(_) => true,
                Node::EmptyFile => true,
                _ => false,
            },
            Err(_) => false,
        }
    }

    /// Whether the handle designates a directory.
    pub fn is_directory(&self, f: &VFile) -> (r: bool)
        ensures
            r == is_directory_spec(self@, f@),
    {
        match self.get_inode(f.inode) {
            Ok(n) => match &n.data {
                Node::Directory(_) => true,
                _ => false,
            },
            Err(_) => false,
        }
    }

    /// The content key backing a file handle: `None` for an empty file.
    /// The caller resolves the key through its content storage.
    pub fn vfile_storage(&self, f: &VFile) -> (r: Result<Option<StorageKey>, VFSError>)
        ensures
            r == vfile_storage_spec(self@, f@),
    {
        match self.get_inode(f.inode) {
            Ok(n) => match &n.data {
                Node::EmptyFile => Ok(None),
                Node::NormalFile(k) => Ok(Some(*k)),
                _ => Err(VFSError::FileExpected),
            },
            Err(_) => Err(VFSError::NotFound),
        }
    }
}


/// `s` with its link count replaced by `l`.
pub open spec fn stat_with_nlink(s: Stat, l: u64) -> Stat {
    Stat { mode: s.mode, uid: s.uid, gid: s.gid, mtime: s.mtime, nlink: l, size: s.size }
}

/// Replace the metadata of allocated slot `i`, keeping its payload.
pub open spec fn set_stat_spec(v: FsView, i: int, s: Stat) -> FsView {
    v.update(i, Some(INodeView { stat: s, node: v[i]->Some_0.node }))
}

/// Replace the entry list of the directory at slot `i`, keeping its
/// metadata.
pub open spec fn set_dir_entries_spec(v: FsView, i: int, es: Seq<DirEntryView>) -> FsView {
    v.update(i, Some(INodeView { stat: v[i]->Some_0.stat, node: NodeView::Directory(es) }))
}

/// Insert `name -> child` into the directory `parent`: the child's link
/// count grows by one, and a displaced entry's target loses one. The first
/// component is the filesystem afterwards; on an error it is unchanged.
pub open spec fn add_child_spec(v: FsView, parent: nat, name: Seq<u8>, child: nat)
    -> (FsView, Result<(), VFSError>)
{
    match node_at(v, child) {
        Err(e) => (v, Err(e)),
        Ok(cn) => {
            if cn.stat.nlink == u64::MAX {
                (v, Err(VFSError::INodeRefCountError))
            } else {
                let v1 = set_stat_spec(
                    v,
                    child as int,
                    stat_with_nlink(cn.stat, (cn.stat.nlink + 1) as u64),
                );
                match node_at(v1, parent) {
                    Err(e) => (v, Err(e)),
                    Ok(pn) => match pn.node {
                        NodeView::Directory(es) => {
                            let k = dir_index_of(es, name);
                            if k == -1 {
                                let v2 = set_dir_entries_spec(
                                    v1,
                                    parent as int,
                                    es.push(DirEntryView { name, node: child }),
                                );
                                (v2, Ok(()))
                            } else {
                                let displaced = es[k].node;
                                let v2 = set_dir_entries_spec(
                                    v1,
                                    parent as int,
                                    es.update(k, DirEntryView { name, node: child }),
                                );
                                match node_at(v2, displaced) {
                                    Err(e) => (v, Err(e)),
                                    Ok(dn) => {
                                        if dn.stat.nlink == 0 {
                                            (v, Err(VFSError::INodeRefCountError))
                                        } else {
                                            let v3 = set_stat_spec(
                                                v2,
                                                displaced as int,
                                                stat_with_nlink(
                                                    dn.stat,
                                                    (dn.stat.nlink - 1) as u64,
                                                ),
                                            );
                                            (v3, Ok(()))
                                        }
                                    },
                                }
                            }
                        },
                        _ => (v, Err(VFSError::DirectoryExpected)),
                    },
                }
            }
        },
    }
}

/// Find `name` in a directory's entry list, returning its position.
fn dir_find_index(es: &Vec<DirEntry>, name: &[u8]) -> (r: Option<usize>)
    ensures
        ({
            let k = dir_index_of(es@.map_values(|e: DirEntry| e@), name@);
            match r {
                Some(i) => k == i as int && i < es@.len(),
                None => k == -1,
            }
        }),
{
    let ghost full = es@.map_values(|e: DirEntry| e@);
    proof {
        assert(full.skip(0) =~= full);
        lemma_dir_index_of(full, name@);
    }
    let n = es.len();
    let mut i: usize = 0;
    while i < n
        invariant
            0 <= i <= n,
            n == es@.len(),
            full == es@.map_values(|e: DirEntry| e@),
            dir_index_of(full, name@) == -1 <==> dir_index_of(full.skip(i as int), name@) == -1,
            dir_index_of(full, name@) != -1 ==> dir_index_of(full, name@) == i
                + dir_index_of(full.skip(i as int), name@)
                && dir_index_of(full.skip(i as int), name@) >= 0,
        decreases n - i,
    {
        proof {
            assert(full.skip(i as int)[0] == full[i as int]);
        }
        if bytes_eq(es[i].name.as_slice(), name) {
            return Some(i);
        }
        proof {
            assert(full.skip(i as int).skip(1) =~= full.skip(i as int + 1));
            lemma_dir_index_of(full.skip(i as int), name@);
            lemma_dir_index_of(full.skip(i as int + 1), name@);
        }
        i = i + 1;
    }
    proof {
        assert(full.skip(n as int) =~= Seq::<DirEntryView>::empty());
    }
    None
}

/// A writer over a filesystem, used during image load. It owns the
/// filesystem; `finish` hands it back.
#[derive(Debug)]
pub struct VFSWriter {
    fs: Filesystem,
    workdir: usize,
}

impl View for VFSWriter {
    type V = FsView;

    closed spec fn view(&self) -> FsView {
        self.fs@
    }
}

impl Filesystem {
    /// Begin writing: the writer's working directory is the root.
    pub fn writer(self) -> (w: VFSWriter)
        ensures
            w@ == self@,
    {
        VFSWriter { fs: self, workdir: 0 }
    }
}

impl VFSWriter {
    /// Hand the finished filesystem back.
    pub fn finish(self) -> (r: Filesystem)
        ensures
            r@ == self@,
    {
        self.fs
    }

    /// Borrow the filesystem being written.
    pub fn filesystem(&self) -> (r: &Filesystem)
        ensures
            r@ == self@,
    {
        &self.fs
    }

    /// Append a fresh, unallocated inode slot.
    fn alloc_inode_number(&mut self) -> (num: usize)
        ensures
            final(self)@ == old(self)@.push(None),
            num as nat == old(self)@.len(),
    {
        let num = self.fs.inodes.len();
        self.fs.inodes.push(None);
        proof {
            assert(final(self)@ =~= old(self)@.push(None));
        }
        num
    }

    /// Fill a previously allocated slot.
    fn put_inode(&mut self, num: usize, inode: INode)
        requires
            num < old(self)@.len(),
            old(self)@[num as int] is None,
        ensures
            final(self)@ == old(self)@.update(num as int, Some(inode@)),
    {
        let slot = &mut self.fs.inodes[num];
        *slot = Some(inode);
        proof {
            assert(final(self)@ =~= old(self)@.update(num as int, Some(inode@)));
        }
    }

    /// Fill a previously allocated slot with an empty directory holding
    /// only its self-entry.
    fn put_directory(&mut self, num: usize)
        requires
            num < old(self)@.len(),
            old(self)@[num as int] is None,
        ensures
            final(self)@ == old(self)@.update(
                num as int,
                Some(
                    INodeView {
                        stat: Stat { mode: 0o755, uid: 0, gid: 0, mtime: 0, nlink: 1, size: 0 },
                        node: NodeView::Directory(
                            seq![DirEntryView { name: seq![46u8], node: num as nat }],
                        ),
                    },
                ),
            ),
    {
        let mut dot: Vec<u8> = Vec::new();
        dot.push(46);
        let mut entries: Vec<DirEntry> = Vec::new();
        entries.push(DirEntry { name: dot, node: num });
        let inode = INode {
            stat: Stat { mode: 0o755, uid: 0, gid: 0, mtime: 0, nlink: 1, size: 0 },
            data: Node::Directory(entries),
        };
        proof {
            assert(inode@.node->Directory_0 =~= seq![
                DirEntryView { name: seq![46u8], node: num as nat },
            ]);
            assert(inode@ == INodeView {
                stat: Stat { mode: 0o755, uid: 0, gid: 0, mtime: 0, nlink: 1, size: 0 },
                node: NodeView::Directory(seq![DirEntryView { name: seq![46u8], node: num as nat }]),
            });
        }
        self.put_inode(num, inode);
    }

    /// Replace the link count of the inode at `num`.
    fn set_nlink(&mut self, num: usize, val: u64)
        requires
            num < old(self)@.len(),
            old(self)@[num as int] is Some,
        ensures
            final(self)@ == set_stat_spec(
                old(self)@,
                num as int,
                stat_with_nlink(old(self)@[num as int]->Some_0.stat, val),
            ),
    {
        let slot = &mut self.fs.inodes[num];
        match slot {
            Some(inode) => {
                inode.stat.nlink = val;
            },
            None => {
                proof {
                    assert(false);
                }
            },
        }
        proof {
            assert(final(self)@ =~= set_stat_spec(
                old(self)@,
                num as int,
                stat_with_nlink(old(self)@[num as int]->Some_0.stat, val),
            ));
        }
    }

    /// Append an entry to the directory at `num`.
    fn dir_push_entry(&mut self, num: usize, name: Vec<u8>, child: usize)
        requires
            num < old(self)@.len(),
            old(self)@[num as int] is Some,
            old(self)@[num as int]->Some_0.node is Directory,
        ensures
            final(self)@ == set_dir_entries_spec(
                old(self)@,
                num as int,
                old(self)@[num as int]->Some_0.node->Directory_0.push(
                    DirEntryView { name: name@, node: child as nat },
                ),
            ),
    {
        let ghost name_view = name@;
        let slot = &mut self.fs.inodes[num];
        match slot {
            Some(inode) => match &mut inode.data {
                Node::Directory(es) => {
                    es.push(DirEntry { name, node: child });
                    proof {
                        assert(es@.map_values(|e: DirEntry| e@) =~= old(self)@[num as int]
                            ->Some_0.node->Directory_0.push(
                            DirEntryView { name: name_view, node: child as nat },
                        ));
                    }
                },
                _ => {
                    proof {
                        assert(false);
                    }
                },
            },
            None => {
                proof {
                    assert(false);
                }
            },
        }
        proof {
            assert(final(self)@ =~= set_dir_entries_spec(
                old(self)@,
                num as int,
                old(self)@[num as int]->Some_0.node->Directory_0.push(
                    DirEntryView { name: name_view, node: child as nat },
                ),
            ));
        }
    }

    /// Overwrite the entry at position `k` of the directory at `num`.
    fn dir_set_entry(&mut self, num: usize, k: usize, name: Vec<u8>, child: usize)
        requires
            num < old(self)@.len(),
            old(self)@[num as int] is Some,
            old(self)@[num as int]->Some_0.node is Directory,
            k < old(self)@[num as int]->Some_0.node->Directory_0.len(),
        ensures
            final(self)@ == set_dir_entries_spec(
                old(self)@,
                num as int,
                old(self)@[num as int]->Some_0.node->Directory_0.update(
                    k as int,
                    DirEntryView { name: name@, node: child as nat },
                ),
            ),
    {
        let ghost name_view = name@;
        let slot = &mut self.fs.inodes[num];
        match slot {
            Some(inode) => match &mut inode.data {
                Node::Directory(es) => {
                    es[k] = DirEntry { name, node: child };
                    proof {
                        assert(es@.map_values(|e: DirEntry| e@) =~= old(self)@[num as int]
                            ->Some_0.node->Directory_0.update(
                            k as int,
                            DirEntryView { name: name_view, node: child as nat },
                        ));
                    }
                },
                _ => {
                    proof {
                        assert(false);
                    }
                },
            },
            None => {
                proof {
                    assert(false);
                }
            },
        }
        proof {
            assert(final(self)@ =~= set_dir_entries_spec(
                old(self)@,
                num as int,
                old(self)@[num as int]->Some_0.node->Directory_0.update(
                    k as int,
                    DirEntryView { name: name_view, node: child as nat },
                ),
            ));
        }
    }

    /// Insert `child_name -> child_value` into the directory
    /// `parent`, maintaining link counts. On an error nothing changes.
    fn add_child_to_directory(&mut self, parent: usize, child_name: &[u8], child_value: usize)
        -> (r: Result<(), VFSError>)
        ensures
            ({
                let (v2, res) = add_child_spec(
                    old(self)@,
                    parent as nat,
                    child_name@,
                    child_value as nat,
                );
                final(self)@ == v2 && r == res
            }),
    {
        // Stage one: check everything, mutating nothing.
        let child_nlink = match self.fs.get_inode(child_value) {
            Ok(cn) => cn.stat.nlink,
            Err(e) => {
                return Err(e);
            },
        };
        if child_nlink == u64::MAX {
            return Err(VFSError::INodeRefCountError);
        }
        let k_opt = match self.fs.get_inode(parent) {
            Err(e) => {
                return Err(e);
            },
            Ok(pn) => match &pn.data {
                Node::Directory(es) => dir_find_index(es, child_name),
                _ => {
                    return Err(VFSError::DirectoryExpected);
                },
            },
        };
        let displaced_opt = match k_opt {
            None => None,
            Some(k) => match self.fs.get_inode(parent) {
                Ok(pn) => match &pn.data {
                    Node::Directory(es) => Some(es[k].node),
                    _ => None,
                },
                Err(_) => None,
            },
        };
        if let Some(d) = displaced_opt {
            match self.fs.get_inode(d) {
                Err(e) => {
                    return Err(e);
                },
                Ok(dn) => {
                    let eff = if d == child_value {
                        child_nlink + 1
                    } else {
                        dn.stat.nlink
                    };
                    if eff == 0 {
                        return Err(VFSError::INodeRefCountError);
                    }
                },
            }
        }
        // Stage two: apply the insertion.
        self.set_nlink(child_value, child_nlink + 1);
        match k_opt {
            Some(k) => {
                self.dir_set_entry(parent, k, slice_to_vec(child_name), child_value);
            },
            None => {
                self.dir_push_entry(parent, slice_to_vec(child_name), child_value);
            },
        }
        if let Some(d) = displaced_opt {
            let dn_nlink = match self.fs.get_inode(d) {
                Ok(dn) => dn.stat.nlink,
                Err(_) => 0,
            };
            self.set_nlink(d, dn_nlink - 1);
        }
        Ok(())
    }
}


/// When lookup fails, no entry carries the name.
pub proof fn lemma_dir_lookup_none(es: Seq<DirEntryView>, name: Seq<u8>)
    requires
        dir_lookup(es, name) is None,
    ensures
        forall|j: int| 0 <= j < es.len() ==> (#[trigger] es[j]).name != name,
    decreases es.len(),
{
    if es.len() > 0 {
        lemma_dir_lookup_none(es.skip(1), name);
        assert forall|j: int| 0 <= j < es.len() implies (#[trigger] es[j]).name != name by {
            if j > 0 {
                assert(es[j] == es.skip(1)[j - 1]);
            }
        }
    }
}

/// Appending an entry raises the count of its target by one.
pub proof fn lemma_dir_count_push(es: Seq<DirEntryView>, e: DirEntryView, n: nat)
    ensures
        dir_count(es.push(e), n) == dir_count(es, n) + if e.node == n {
            1nat
        } else {
            0nat
        },
{
    assert(es.push(e).drop_last() =~= es);
    assert(es.push(e).last() == e);
}

/// Replacing the entry at `k` trades its old target for the new one.
pub proof fn lemma_dir_count_update(es: Seq<DirEntryView>, k: int, e: DirEntryView, n: nat)
    requires
        0 <= k < es.len(),
    ensures
        dir_count(es.update(k, e), n) + (if es[k].node == n {
            1nat
        } else {
            0nat
        }) == dir_count(es, n) + (if e.node == n {
            1nat
        } else {
            0nat
        }),
    decreases es.len(),
{
    if k == es.len() - 1 {
        assert(es.update(k, e).drop_last() =~= es.drop_last());
        assert(es.update(k, e).last() == e);
    } else {
        assert(es.update(k, e).drop_last() =~= es.drop_last().update(k, e));
        assert(es.update(k, e).last() == es.last());
        lemma_dir_count_update(es.drop_last(), k, e, n);
    }
}

/// A directory with no entry targeting `n` contributes no references.
pub proof fn lemma_dir_count_zero(es: Seq<DirEntryView>, n: nat)
    requires
        forall|k: int| 0 <= k < es.len() ==> (#[trigger] es[k]).node != n,
    ensures
        dir_count(es, n) == 0,
    decreases es.len(),
{
    if es.len() > 0 {
        assert forall|k: int| 0 <= k < es.drop_last().len() implies (#[trigger] es.drop_last()[k]).node
            != n by {
            assert(es.drop_last()[k] == es[k]);
        }
        assert(es.last() == es[es.len() - 1]);
        lemma_dir_count_zero(es.drop_last(), n);
    }
}

/// Reference counts below `k` change only through slot `j` when slot `j`
/// alone is replaced.
pub proof fn lemma_count_upto_update(v: FsView, j: int, x: Option<INodeView>, n: nat, k: int)
    requires
        0 <= j < v.len(),
        k <= v.len(),
    ensures
        k <= j ==> count_refs_upto(v.update(j, x), n, k) == count_refs_upto(v, n, k),
        k > j ==> count_refs_upto(v.update(j, x), n, k) + slot_count(v, j, n)
            == count_refs_upto(v, n, k) + slot_count(v.update(j, x), j, n),
    decreases k,
{
    if k > 0 {
        lemma_count_upto_update(v, j, x, n, k - 1);
        if k - 1 != j {
            assert(v.update(j, x)[k - 1] == v[k - 1]);
            assert(slot_count(v.update(j, x), k - 1, n) == slot_count(v, k - 1, n));
        }
    }
}

/// Appending a slot leaves the counts over the existing prefix unchanged.
pub proof fn lemma_count_upto_push(v: FsView, x: Option<INodeView>, n: nat, k: int)
    requires
        0 <= k <= v.len(),
    ensures
        count_refs_upto(v.push(x), n, k) == count_refs_upto(v, n, k),
    decreases k,
{
    if k > 0 {
        lemma_count_upto_push(v, x, n, k - 1);
        assert(v.push(x)[k - 1] == v[k - 1]);
        assert(slot_count(v.push(x), k - 1, n) == slot_count(v, k - 1, n));
    }
}

/// Replacing only the metadata of a slot leaves all reference counts
/// unchanged.
pub proof fn lemma_count_refs_set_stat(v: FsView, j: int, s: Stat, n: nat)
    requires
        0 <= j < v.len(),
        v[j] is Some,
    ensures
        count_refs(set_stat_spec(v, j, s), n) == count_refs(v, n),
{
    let v2 = set_stat_spec(v, j, s);
    lemma_count_upto_update(v, j, Some(INodeView { stat: s, node: v[j]->Some_0.node }), n,
        v.len() as int);
    assert(slot_count(v2, j, n) == slot_count(v, j, n));
}

/// Replacing a directory's entry list shifts the counts by the difference
/// of the two lists' contributions.
pub proof fn lemma_count_refs_set_entries(v: FsView, j: int, es2: Seq<DirEntryView>, n: nat)
    requires
        0 <= j < v.len(),
        v[j] is Some,
        v[j]->Some_0.node is Directory,
    ensures
        count_refs(set_dir_entries_spec(v, j, es2), n)
            + dir_count(v[j]->Some_0.node->Directory_0, n)
            == count_refs(v, n) + dir_count(es2, n),
{
    let v2 = set_dir_entries_spec(v, j, es2);
    lemma_count_upto_update(v, j, Some(INodeView { stat: v[j]->Some_0.stat,
        node: NodeView::Directory(es2) }), n, v.len() as int);
    assert(slot_count(v, j, n) == dir_count(v[j]->Some_0.node->Directory_0, n));
    assert(slot_count(v2, j, n) == dir_count(es2, n));
}

/// A slot that no well-formed directory may reference (because it is
/// unallocated) has a zero reference count.
pub proof fn lemma_count_refs_unallocated(v: FsView, n: nat, k: int)
    requires
        forall|i: int| 0 <= i < v.len() ==> #[trigger] slot_ok(v, i),
        n < v.len(),
        v[n as int] is None,
        0 <= k <= v.len(),
    ensures
        count_refs_upto(v, n, k) == 0,
    decreases k,
{
    if k > 0 {
        lemma_count_refs_unallocated(v, n, k - 1);
        assert(slot_ok(v, k - 1));
        match v[k - 1] {
            Some(nd) => match nd.node {
                NodeView::Directory(es) => {
                    assert forall|m: int| 0 <= m < es.len() implies (#[trigger] es[m]).node != n by {
                        assert(entry_ok(v, es[m]));
                    }
                    lemma_dir_count_zero(es, n);
                },
                _ => {},
            },
            None => {},
        }
    }
}

/// The successful insertion of a directory entry preserves full
/// well-formedness.
pub proof fn lemma_add_child_wf(v: FsView, parent: nat, name: Seq<u8>, child: nat)
    requires
        fs_wf(v),
        add_child_spec(v, parent, name, child).1 is Ok,
    ensures
        fs_wf(add_child_spec(v, parent, name, child).0),
{
    let cn = node_at(v, child)->Ok_0;
    let v1 = set_stat_spec(v, child as int, stat_with_nlink(cn.stat, (cn.stat.nlink + 1) as u64));
    let pn = node_at(v1, parent)->Ok_0;
    let es = pn.node->Directory_0;
    let k = dir_index_of(es, name);
    lemma_dir_index_of(es, name);
    let newe = DirEntryView { name, node: child };
    let es2 = if k == -1 {
        es.push(newe)
    } else {
        es.update(k, newe)
    };
    let v2 = set_dir_entries_spec(v1, parent as int, es2);
    let out = add_child_spec(v, parent, name, child).0;

    // Shape first: allocation and payloads are preserved except for the
    // parent directory, whose new entry targets an allocated inode.
    assert(v1.len() == v.len() && v2.len() == v.len() && out.len() == v.len());
    assert forall|i: int| 0 <= i < out.len() implies (out[i] is Some <==> v[i] is Some)
        && (out[i] is Some ==> out[i]->Some_0.node == if i == parent {
        NodeView::Directory(es2)
    } else {
        v[i]->Some_0.node
    }) by {}

    assert forall|i: int| 0 <= i < out.len() implies #[trigger] slot_ok(out, i) by {
        assert(slot_ok(v, i));
        match out[i] {
            Some(nd) => match nd.node {
                NodeView::Directory(ds) => {
                    if i == parent {
                        assert(ds == es2);
                        assert(v[i]->Some_0.node == pn.node);
                        assert(dir_ok(v, es));
                        assert forall|m: int| 0 <= m < es2.len() implies entry_ok(out, #[trigger] es2[m]) by {
                            if k == -1 {
                                if m < es.len() {
                                    assert(es2[m] == es[m]);
                                    assert(entry_ok(v, es[m]));
                                } else {
                                    assert(es2[m] == newe);
                                    assert(node_at(v, child) is Ok);
                                }
                            } else {
                                if m == k {
                                    assert(es2[m] == newe);
                                    assert(node_at(v, child) is Ok);
                                } else {
                                    assert(es2[m] == es[m]);
                                    assert(entry_ok(v, es[m]));
                                }
                            }
                        }
                        assert(dir_names_unique(es2)) by {
                            if k == -1 {
                                lemma_dir_lookup_none(es, name);
                                assert forall|k1: int, k2: int|
                                    0 <= k1 < es2.len() && 0 <= k2 < es2.len() && k1 != k2 implies
                                    es2[k1].name != es2[k2].name by {
                                    if k1 < es.len() && k2 < es.len() {
                                        assert(es2[k1] == es[k1] && es2[k2] == es[k2]);
                                    } else if k1 < es.len() {
                                        assert(es2[k2] == newe && es2[k1] == es[k1]);
                                        assert(es[k1].name != name);
                                    } else {
                                        assert(es2[k1] == newe && es2[k2] == es[k2]);
                                        assert(es[k2].name != name);
                                    }
                                }
                            } else {
                                assert forall|k1: int, k2: int|
                                    0 <= k1 < es2.len() && 0 <= k2 < es2.len() && k1 != k2 implies
                                    es2[k1].name != es2[k2].name by {
                                    assert(es2[k1].name == es[k1].name);
                                    assert(es2[k2].name == es[k2].name);
                                }
                            }
                        }
                    } else {
                        assert(nd.node == v[i]->Some_0.node);
                        assert forall|m: int| 0 <= m < ds.len() implies entry_ok(out, #[trigger] ds[m]) by {
                            assert(entry_ok(v, ds[m]));
                        }
                    }
                },
                _ => {},
            },
            None => {},
        }
    }
    assert(out[0] is Some);
    assert(out[0]->Some_0.node is Directory);
    assert(fs_shape_wf(out));

    // Link counts: the child gains one reference, a displaced target loses
    // one, and nothing else moves.
    assert forall|m: int| 0 <= m < out.len() && out[m] is Some implies (#[trigger] out[m])
        ->Some_0.stat.nlink == count_refs(out, m as nat) by {
        let mn = m as nat;
        lemma_count_refs_set_stat(v, child as int, stat_with_nlink(cn.stat,
            (cn.stat.nlink + 1) as u64), mn);
        assert(count_refs(v1, mn) == count_refs(v, mn));
        assert(v1[parent as int] is Some && v1[parent as int]->Some_0.node is Directory);
        lemma_count_refs_set_entries(v1, parent as int, es2, mn);
        if k == -1 {
            lemma_dir_count_push(es, newe, mn);
            assert(count_refs(v2, mn) == count_refs(v, mn) + if child == mn {
                1nat
            } else {
                0nat
            });
            assert(out == v2);
            assert(out[m]->Some_0.stat.nlink == count_refs(out, mn));
        } else {
            let displaced = es[k].node;
            let dn = node_at(v2, displaced)->Ok_0;
            let v3 = set_stat_spec(v2, displaced as int, stat_with_nlink(dn.stat,
                (dn.stat.nlink - 1) as u64));
            assert(out == v3);
            lemma_dir_count_update(es, k, newe, mn);
            lemma_count_refs_set_stat(v2, displaced as int, stat_with_nlink(dn.stat,
                (dn.stat.nlink - 1) as u64), mn);
            assert(count_refs(v3, mn) == count_refs(v2, mn));
            assert(count_refs(v2, mn) + if displaced == mn {
                1nat
            } else {
                0nat
            } == count_refs(v, mn) + if child == mn {
                1nat
            } else {
                0nat
            });
            assert(out[m]->Some_0.stat.nlink == count_refs(out, mn));
        }
    }
    assert(fs_nlink_wf(out));
}


/// The view of a freshly created child directory at slot `num`.
pub open spec fn fresh_dir_view(num: nat) -> INodeView {
    INodeView {
        stat: Stat { mode: 0o755, uid: 0, gid: 0, mtime: 0, nlink: 1, size: 0 },
        node: NodeView::Directory(seq![DirEntryView { name: seq![46u8], node: num }]),
    }
}

/// Allocate a fresh directory, link it as `name` under `parent`, and give
/// it a `".."` entry back to `parent`.
pub open spec fn alloc_child_spec(v: FsView, parent: nat, name: Seq<u8>) -> FsView {
    let num = v.len();
    let v2 = v.push(None).update(num as int, Some(fresh_dir_view(num)));
    let v3 = add_child_spec(v2, parent, name, num).0;
    add_child_spec(v3, num, seq![46u8, 46u8], parent).0
}

/// Under the conditions that hold after a failed lookup, both insertions
/// of `alloc_child_spec` succeed.
pub proof fn lemma_alloc_child_ok(v: FsView, parent: nat, name: Seq<u8>)
    requires
        node_at(v, parent) is Ok,
        node_at(v, parent)->Ok_0.node is Directory,
        dir_lookup(node_at(v, parent)->Ok_0.node->Directory_0, name) is None,
        node_at(v, parent)->Ok_0.stat.nlink < u64::MAX,
    ensures
        ({
            let num = v.len();
            let v2 = v.push(None).update(num as int, Some(fresh_dir_view(num)));
            let v3 = add_child_spec(v2, parent, name, num).0;
            &&& add_child_spec(v2, parent, name, num).1 is Ok
            &&& add_child_spec(v3, num, seq![46u8, 46u8], parent).1 is Ok
        }),
{
    let num = v.len();
    let v2 = v.push(None).update(num as int, Some(fresh_dir_view(num)));
    let pn = node_at(v, parent)->Ok_0;
    let es = pn.node->Directory_0;
    assert(v2[parent as int] == v[parent as int]);
    assert(v2[num as int] == Some(fresh_dir_view(num)));

    // First insertion: `name -> num` under `parent`.
    let cn = node_at(v2, num)->Ok_0;
    assert(cn.stat.nlink == 1);
    let v2a = set_stat_spec(v2, num as int, stat_with_nlink(cn.stat, 2));
    assert(v2a[parent as int] == v2[parent as int]);
    assert(node_at(v2a, parent)->Ok_0.node == pn.node);
    lemma_dir_index_of(es, name);
    assert(dir_index_of(es, name) == -1);
    assert(add_child_spec(v2, parent, name, num).1 is Ok);

    // Second insertion: `".." -> parent` under the fresh directory.
    let v3 = add_child_spec(v2, parent, name, num).0;
    assert(v3 == set_dir_entries_spec(v2a, parent as int,
        es.push(DirEntryView { name, node: num })));
    assert(parent != num);
    assert(v3[num as int]->Some_0.stat.nlink == 2);
    assert(v3[num as int]->Some_0.node == fresh_dir_view(num).node);
    assert(v3[parent as int]->Some_0.stat.nlink == pn.stat.nlink);
    let pn3 = node_at(v3, parent)->Ok_0;
    assert(pn3.stat.nlink < u64::MAX);
    let v3a = set_stat_spec(v3, parent as int, stat_with_nlink(pn3.stat,
        (pn3.stat.nlink + 1) as u64));
    assert(v3a[num as int]->Some_0.node == fresh_dir_view(num).node);
    let ds = fresh_dir_view(num).node->Directory_0;
    lemma_dir_index_of(ds, seq![46u8, 46u8]);
    if dir_index_of(ds, seq![46u8, 46u8]) != -1 {
        let k = dir_index_of(ds, seq![46u8, 46u8]);
        assert(ds[k].name == seq![46u8, 46u8]);
        assert(ds[0].name == seq![46u8]);
        assert(false);
    }
    assert(add_child_spec(v3, num, seq![46u8, 46u8], parent).1 is Ok);
}

/// Appending a `None` slot preserves well-formedness.
pub proof fn lemma_push_none_wf(v: FsView)
    requires
        fs_wf(v),
    ensures
        fs_wf(v.push(None)),
{
    let v2 = v.push(None);
    assert forall|i: int| 0 <= i < v2.len() implies #[trigger] slot_ok(v2, i) by {
        if i < v.len() {
            assert(slot_ok(v, i));
            assert(v2[i] == v[i]);
            match v2[i] {
                Some(nd) => match nd.node {
                    NodeView::Directory(es) => {
                        assert forall|m: int| 0 <= m < es.len() implies entry_ok(v2, #[trigger] es[m]) by {
                            assert(entry_ok(v, es[m]));
                            assert(v2[es[m].node as int] == v[es[m].node as int]);
                        }
                    },
                    _ => {},
                },
                None => {},
            }
        }
    }
    assert(v2[0] == v[0]);
    assert forall|i: int| 0 <= i < v2.len() && v2[i] is Some implies (#[trigger] v2[i])
        ->Some_0.stat.nlink == count_refs(v2, i as nat) by {
        lemma_count_upto_push(v, None, i as nat, v.len() as int);
        assert(slot_count(v2, v.len() as int, i as nat) == 0);
        assert(count_refs(v2, i as nat) == count_refs_upto(v2, i as nat, v.len() as int));
        assert(v2[i] == v[i]);
    }
}

/// No directory of a well-formed table references a slot that holds
/// nothing, so a fresh or empty slot has a zero count.
pub proof fn lemma_count_refs_none_zero(v: FsView, n: nat)
    requires
        forall|i: int| 0 <= i < v.len() ==> #[trigger] slot_ok(v, i),
        n < v.len(),
        v[n as int] is None,
    ensures
        count_refs(v, n) == 0,
{
    lemma_count_refs_unallocated(v, n, v.len() as int);
}

/// Filling an empty slot with a payload that is not a directory and has a
/// zero link count preserves well-formedness.
pub proof fn lemma_put_nondir_wf(v: FsView, num: nat, x: INodeView)
    requires
        fs_wf(v),
        num < v.len(),
        v[num as int] is None,
        !(x.node is Directory),
        x.stat.nlink == 0,
    ensures
        fs_wf(v.update(num as int, Some(x))),
{
    let v2 = v.update(num as int, Some(x));
    assert forall|i: int| 0 <= i < v2.len() implies #[trigger] slot_ok(v2, i) by {
        assert(slot_ok(v, i));
        if i != num {
            assert(v2[i] == v[i]);
        }
        match v2[i] {
            Some(nd) => match nd.node {
                NodeView::Directory(es) => {
                    assert forall|m: int| 0 <= m < es.len() implies entry_ok(v2, #[trigger] es[m]) by {
                        assert(entry_ok(v, es[m]));
                        if es[m].node != num {
                            assert(v2[es[m].node as int] == v[es[m].node as int]);
                        }
                    }
                },
                _ => {},
            },
            None => {},
        }
    }
    assert(v2[0] == v[0]);
    assert forall|i: int| 0 <= i < v2.len() && v2[i] is Some implies (#[trigger] v2[i])
        ->Some_0.stat.nlink == count_refs(v2, i as nat) by {
        lemma_count_upto_update(v, num as int, Some(x), i as nat, v.len() as int);
        assert(slot_count(v, num as int, i as nat) == 0);
        assert(slot_count(v2, num as int, i as nat) == 0);
        assert(count_refs(v2, i as nat) == count_refs(v, i as nat));
        if i == num {
            lemma_count_refs_none_zero(v, i as nat);
        } else {
            assert(v2[i] == v[i]);
        }
    }
}

/// Filling an empty slot with a fresh self-referencing directory
/// preserves well-formedness.
pub proof fn lemma_put_fresh_dir_wf(v: FsView, num: nat)
    requires
        fs_wf(v),
        num < v.len(),
        v[num as int] is None,
    ensures
        fs_wf(v.update(num as int, Some(fresh_dir_view(num)))),
{
    let x = fresh_dir_view(num);
    let v2 = v.update(num as int, Some(x));
    let ds = x.node->Directory_0;
    assert forall|i: int| 0 <= i < v2.len() implies #[trigger] slot_ok(v2, i) by {
        assert(slot_ok(v, i));
        if i != num {
            assert(v2[i] == v[i]);
        }
        match v2[i] {
            Some(nd) => match nd.node {
                NodeView::Directory(es) => {
                    if i == num {
                        assert(es == ds);
                        assert(entry_ok(v2, es[0]));
                    } else {
                        assert forall|m: int| 0 <= m < es.len() implies entry_ok(v2, #[trigger] es[m]) by {
                            assert(entry_ok(v, es[m]));
                            if es[m].node != num {
                                assert(v2[es[m].node as int] == v[es[m].node as int]);
                            }
                        }
                    }
                },
                _ => {},
            },
            None => {},
        }
    }
    assert(v2[0] == v[0]);
    assert forall|i: int| 0 <= i < v2.len() && v2[i] is Some implies (#[trigger] v2[i])
        ->Some_0.stat.nlink == count_refs(v2, i as nat) by {
        lemma_count_upto_update(v, num as int, Some(x), i as nat, v.len() as int);
        assert(slot_count(v, num as int, i as nat) == 0);
        assert(slot_count(v2, num as int, i as nat) == dir_count(ds, i as nat));
        assert(dir_count(ds, i as nat) == if i == num {
            1nat
        } else {
            0nat
        }) by {
            assert(ds.drop_last() =~= Seq::<DirEntryView>::empty());
            assert(dir_count(Seq::<DirEntryView>::empty(), i as nat) == 0);
            assert(ds.last().node == num);
        }
        if i == num {
            lemma_count_refs_none_zero(v, i as nat);
            assert(count_refs(v2, i as nat) == 1);
        } else {
            assert(count_refs(v2, i as nat) == count_refs(v, i as nat));
            assert(v2[i] == v[i]);
        }
    }
}

/// Creating and linking a child directory preserves well-formedness.
pub proof fn lemma_alloc_child_wf(v: FsView, parent: nat, name: Seq<u8>)
    requires
        fs_wf(v),
        node_at(v, parent) is Ok,
        node_at(v, parent)->Ok_0.node is Directory,
        dir_lookup(node_at(v, parent)->Ok_0.node->Directory_0, name) is None,
        node_at(v, parent)->Ok_0.stat.nlink < u64::MAX,
    ensures
        fs_wf(alloc_child_spec(v, parent, name)),
{
    let num = v.len();
    let v1 = v.push(None);
    let v2 = v1.update(num as int, Some(fresh_dir_view(num)));
    lemma_push_none_wf(v);
    lemma_put_fresh_dir_wf(v1, num);
    lemma_alloc_child_ok(v, parent, name);
    lemma_add_child_wf(v2, parent, name, num);
    let v3 = add_child_spec(v2, parent, name, num).0;
    lemma_add_child_wf(v3, num, seq![46u8, 46u8], parent);
}

impl VFSWriter {
    /// Allocate a fresh directory and link it as `name` under `parent`.
    /// Fails, changing nothing, only when the parent's link count cannot
    /// grow.
    fn alloc_child_directory(&mut self, parent: usize, name: &[u8])
        -> (r: Result<usize, VFSError>)
        requires
            node_at(old(self)@, parent as nat) is Ok,
            node_at(old(self)@, parent as nat)->Ok_0.node is Directory,
            dir_lookup(
                node_at(old(self)@, parent as nat)->Ok_0.node->Directory_0,
                name@,
            ) is None,
        ensures
            match r {
                Ok(num) => {
                    &&& node_at(old(self)@, parent as nat)->Ok_0.stat.nlink < u64::MAX
                    &&& num as nat == old(self)@.len()
                    &&& final(self)@ == alloc_child_spec(old(self)@, parent as nat, name@)
                },
                Err(e) => {
                    &&& e == VFSError::INodeRefCountError
                    &&& node_at(old(self)@, parent as nat)->Ok_0.stat.nlink == u64::MAX
                    &&& final(self)@ == old(self)@
                },
            },
    {
        let pn_nlink = match self.fs.get_inode(parent) {
            Ok(pn) => pn.stat.nlink,
            Err(_) => {
                proof {
                    assert(false);
                }
                0
            },
        };
        if pn_nlink == u64::MAX {
            return Err(VFSError::INodeRefCountError);
        }
        proof {
            lemma_alloc_child_ok(old(self)@, parent as nat, name@);
        }
        let num = self.alloc_inode_number();
        self.put_directory(num);
        proof {
            assert(self@ == old(self)@.push(None).update(num as int,
                Some(fresh_dir_view(num as nat)))) by {
                assert(old(self)@.push(None).update(num as int,
                    Some(fresh_dir_view(num as nat)))[num as int]
                    == Some(fresh_dir_view(num as nat)));
                assert(self@ =~= old(self)@.push(None).update(num as int,
                    Some(fresh_dir_view(num as nat))));
            }
        }
        let r1 = self.add_child_to_directory(parent, name, num);
        if r1.is_err() {
            proof {
                assert(false);
            }
            return Err(VFSError::INodeRefCountError);
        }
        let mut dotdot: Vec<u8> = Vec::new();
        dotdot.push(46);
        dotdot.push(46);
        proof {
            assert(dotdot@ =~= seq![46u8, 46u8]);
        }
        let r2 = self.add_child_to_directory(num, dotdot.as_slice(), parent);
        if r2.is_err() {
            proof {
                assert(false);
            }
            return Err(VFSError::INodeRefCountError);
        }
        Ok(num)
    }
}


/// One lookup step of a creating walk: a missing name brings a fresh child
/// directory into being.
pub open spec fn roc_seg_spec(v: FsView, ps: nat, sl: nat, parent: nat, seg: Seq<u8>)
    -> (FsView, Result<WalkOk, VFSError>)
{
    match seg_step_spec(v, ps, sl, parent, seg) {
        Ok(w) => (v, Ok(w)),
        Err(e) => {
            if e == VFSError::NotFound {
                let ps1 = (ps - 1) as nat;
                match node_at(v, parent) {
                    Ok(pn) => {
                        if pn.stat.nlink == u64::MAX {
                            (v, Err(VFSError::INodeRefCountError))
                        } else {
                            (
                                alloc_child_spec(v, parent, seg),
                                Ok(
                                    WalkOk {
                                        entry: EntryRefView { parent, child: v.len() },
                                        ps: ps1,
                                        sl,
                                    },
                                ),
                            )
                        }
                    },
                    Err(e2) => (v, Err(e2)),
                }
            } else {
                (v, Err(e))
            }
        },
    }
}

/// Walk the remaining segments of a creating walk.
pub open spec fn roc_cont_spec(
    v: FsView,
    ps: nat,
    sl: nat,
    entry: EntryRefView,
    segs: Seq<Seq<u8>>,
    i: nat,
) -> (FsView, Result<WalkOk, VFSError>)
    decreases sl, 1nat, ps, segs.len() - i,
{
    if i >= segs.len() {
        (v, Ok(WalkOk { entry, ps, sl }))
    } else {
        match resolve_symlinks_spec(v, ps, sl, entry) {
            Err(e) => (v, Err(e)),
            Ok(w) => {
                let psa = if w.ps <= ps { w.ps } else { ps };
                let sla = if w.sl <= sl { w.sl } else { sl };
                let (v2, step) = roc_seg_spec(v, psa, sla, w.entry.child, segs[i as int]);
                match step {
                    Err(e) => (v2, Err(e)),
                    Ok(w2) => roc_cont_spec(v2, w2.ps, w2.sl, w2.entry, segs, i + 1),
                }
            },
        }
    }
}

/// Walk a whole segment list, creating missing directories along the way.
pub open spec fn roc_spec(v: FsView, ps: nat, sl: nat, parent: nat, segs: Seq<Seq<u8>>)
    -> (FsView, Result<WalkOk, VFSError>)
    decreases sl, 2nat, ps, 0nat,
{
    if segs.len() == 0 {
        (v, Ok(WalkOk { entry: EntryRefView { parent, child: parent }, ps, sl }))
    } else {
        let (v2, step) = roc_seg_spec(v, ps, sl, parent, segs[0]);
        match step {
            Err(e) => (v2, Err(e)),
            Ok(w) => roc_cont_spec(v2, w.ps, w.sl, w.entry, segs, 1),
        }
    }
}

impl VFSWriter {
    /// One lookup step, creating the entry when it is missing.
    fn resolve_or_create_path_segment(&mut self, limits: &mut Limits, parent: usize, part: &[u8])
        -> (r: Result<DirEntryRef, VFSError>)
        ensures
            ({
                let (v2, sr) = roc_seg_spec(
                    old(self)@,
                    old(limits).path_segment as nat,
                    old(limits).symbolic_link as nat,
                    parent as nat,
                    part@,
                );
                final(self)@ == v2 && match r {
                    Ok(e2) => sr == Ok::<WalkOk, VFSError>(
                        WalkOk {
                            entry: e2@,
                            ps: final(limits).path_segment as nat,
                            sl: final(limits).symbolic_link as nat,
                        },
                    ),
                    Err(e) => sr == Err::<WalkOk, VFSError>(e),
                }
            }),
    {
        let ghost ps0 = limits.path_segment as nat;
        let ghost sl0 = limits.symbolic_link as nat;
        let first = self.fs.resolve_path_segment(limits, parent, part);
        match first {
            Ok(e) => Ok(e),
            Err(VFSError::NotFound) => {
                proof {
                    // A failed lookup pins the parent down as a directory
                    // without that name.
                    assert(node_at(old(self)@, parent as nat) is Ok);
                }
                match self.alloc_child_directory(parent, part) {
                    Ok(child) => Ok(DirEntryRef { parent, child }),
                    Err(e) => Err(e),
                }
            },
            Err(e) => Err(e),
        }
    }

    /// Walk the remaining segments, creating as needed.
    fn resolve_or_create_path_cont(
        &mut self,
        limits: &mut Limits,
        entry: DirEntryRef,
        segs: &Vec<Vec<u8>>,
        i: usize,
    ) -> (r: Result<DirEntryRef, VFSError>)
        ensures
            ({
                let (v2, sr) = roc_cont_spec(
                    old(self)@,
                    old(limits).path_segment as nat,
                    old(limits).symbolic_link as nat,
                    entry@,
                    segs@.map_values(|s: Vec<u8>| s@),
                    i as nat,
                );
                final(self)@ == v2 && match r {
                    Ok(e2) => sr == Ok::<WalkOk, VFSError>(
                        WalkOk {
                            entry: e2@,
                            ps: final(limits).path_segment as nat,
                            sl: final(limits).symbolic_link as nat,
                        },
                    ),
                    Err(e) => sr == Err::<WalkOk, VFSError>(e),
                }
            }),
        decreases limits.symbolic_link, 1nat, limits.path_segment, segs@.len() - i,
    {
        if i >= segs.len() {
            Ok(entry)
        } else {
            let ghost ps0 = limits.path_segment as nat;
            let ghost sl0 = limits.symbolic_link as nat;
            let e1 = match self.fs.resolve_symlinks(limits, entry) {
                Ok(e1) => e1,
                Err(e) => {
                    return Err(e);
                },
            };
            proof {
                lemma_resolve_symlinks_budgets(self@, ps0, sl0, entry@);
            }
            let e2 = match self.resolve_or_create_path_segment(limits, e1.child, segs[i].as_slice())
                {
                Ok(e2) => e2,
                Err(e) => {
                    return Err(e);
                },
            };
            self.resolve_or_create_path_cont(limits, e2, segs, i + 1)
        }
    }

    /// Walk a whole segment list, creating missing directories.
    fn resolve_or_create_path(
        &mut self,
        limits: &mut Limits,
        parent: usize,
        segs: &Vec<Vec<u8>>,
    ) -> (r: Result<DirEntryRef, VFSError>)
        ensures
            ({
                let (v2, sr) = roc_spec(
                    old(self)@,
                    old(limits).path_segment as nat,
                    old(limits).symbolic_link as nat,
                    parent as nat,
                    segs@.map_values(|s: Vec<u8>| s@),
                );
                final(self)@ == v2 && match r {
                    Ok(e2) => sr == Ok::<WalkOk, VFSError>(
                        WalkOk {
                            entry: e2@,
                            ps: final(limits).path_segment as nat,
                            sl: final(limits).symbolic_link as nat,
                        },
                    ),
                    Err(e) => sr == Err::<WalkOk, VFSError>(e),
                }
            }),
        decreases limits.symbolic_link, 2nat, limits.path_segment, 0nat,
    {
        if segs.len() == 0 {
            Ok(DirEntryRef { parent, child: parent })
        } else {
            let e = match self.resolve_or_create_path_segment(limits, parent, segs[0].as_slice()) {
                Ok(e) => e,
                Err(e) => {
                    return Err(e);
                },
            };
            self.resolve_or_create_path_cont(limits, e, segs, 1)
        }
    }
}


/// A creating step preserves well-formedness.
pub proof fn lemma_roc_seg_wf(v: FsView, ps: nat, sl: nat, parent: nat, seg: Seq<u8>)
    requires
        fs_wf(v),
    ensures
        fs_wf(roc_seg_spec(v, ps, sl, parent, seg).0),
{
    match seg_step_spec(v, ps, sl, parent, seg) {
        Ok(_) => {},
        Err(e) => {
            if e == VFSError::NotFound {
                match node_at(v, parent) {
                    Ok(pn) => {
                        if pn.stat.nlink != u64::MAX {
                            lemma_alloc_child_wf(v, parent, seg);
                        }
                    },
                    Err(_) => {},
                }
            }
        },
    }
}

/// A creating walk preserves well-formedness.
pub proof fn lemma_roc_cont_wf(
    v: FsView,
    ps: nat,
    sl: nat,
    entry: EntryRefView,
    segs: Seq<Seq<u8>>,
    i: nat,
)
    requires
        fs_wf(v),
    ensures
        fs_wf(roc_cont_spec(v, ps, sl, entry, segs, i).0),
    decreases sl, 1nat, ps, segs.len() - i,
{
    if i < segs.len() {
        match resolve_symlinks_spec(v, ps, sl, entry) {
            Err(_) => {},
            Ok(w) => {
                let psa = if w.ps <= ps { w.ps } else { ps };
                let sla = if w.sl <= sl { w.sl } else { sl };
                lemma_roc_seg_wf(v, psa, sla, w.entry.child, segs[i as int]);
                let (v2, step) = roc_seg_spec(v, psa, sla, w.entry.child, segs[i as int]);
                match step {
                    Err(_) => {},
                    Ok(w2) => {
                        lemma_roc_cont_wf(v2, w2.ps, w2.sl, w2.entry, segs, i + 1);
                    },
                }
            },
        }
    }
}

/// A whole creating walk preserves well-formedness.
pub proof fn lemma_roc_wf(v: FsView, ps: nat, sl: nat, parent: nat, segs: Seq<Seq<u8>>)
    requires
        fs_wf(v),
    ensures
        fs_wf(roc_spec(v, ps, sl, parent, segs).0),
    decreases sl, 2nat, ps, 0nat,
{
    if segs.len() > 0 {
        lemma_roc_seg_wf(v, ps, sl, parent, segs[0]);
        let (v2, step) = roc_seg_spec(v, ps, sl, parent, segs[0]);
        match step {
            Err(_) => {},
            Ok(w) => {
                lemma_roc_cont_wf(v2, w.ps, w.sl, w.entry, segs, 1);
            },
        }
    }
}

/// Resolve a path's parent directory, creating missing directories, and
/// return it with the path's final name. A path without a usable final
/// name (empty, `"/"`, `"."` or `".."`) is refused.
pub open spec fn roc_parent_spec(v: FsView, ps: nat, sl: nat, p: Seq<u8>)
    -> (FsView, Result<(nat, Seq<u8>), VFSError>)
{
    let segs = split_path_spec(p);
    if segs.len() == 0 {
        (v, Err(VFSError::NotFound))
    } else {
        let name = segs.last();
        if name == seq![SLASH] || name == seq![46u8] || name == seq![46u8, 46u8] {
            (v, Err(VFSError::NotFound))
        } else {
            let (v1, rr) = roc_spec(v, ps, sl, 0, segs.drop_last());
            match rr {
                Err(e) => (v1, Err(e)),
                Ok(w) => match resolve_symlinks_spec(v1, w.ps, w.sl, w.entry) {
                    Err(e) => (v1, Err(e)),
                    Ok(w2) => (v1, Ok((w2.entry.child, name))),
                },
            }
        }
    }
}

/// Resolving a parent preserves well-formedness.
pub proof fn lemma_roc_parent_wf(v: FsView, ps: nat, sl: nat, p: Seq<u8>)
    requires
        fs_wf(v),
    ensures
        fs_wf(roc_parent_spec(v, ps, sl, p).0),
{
    let segs = split_path_spec(p);
    if segs.len() > 0 {
        let name = segs.last();
        if !(name == seq![SLASH] || name == seq![46u8] || name == seq![46u8, 46u8]) {
            lemma_roc_wf(v, ps, sl, 0, segs.drop_last());
        }
    }
}

/// Allocate a new non-directory inode and link it as `name` under `dir`.
pub open spec fn put_new_child_spec(v: FsView, dir: nat, name: Seq<u8>, node: NodeView, s: Stat)
    -> (FsView, Result<(), VFSError>)
{
    let num = v.len();
    let v2 = v.push(Some(INodeView { stat: stat_with_nlink(s, 0), node }));
    add_child_spec(v2, dir, name, num)
}

/// Appending a new unreferenced non-directory inode preserves
/// well-formedness.
pub proof fn lemma_push_some_wf(v: FsView, x: INodeView)
    requires
        fs_wf(v),
        !(x.node is Directory),
        x.stat.nlink == 0,
    ensures
        fs_wf(v.push(Some(x))),
{
    lemma_push_none_wf(v);
    lemma_put_nondir_wf(v.push(None), v.len(), x);
    assert(v.push(None).update(v.len() as int, Some(x)) =~= v.push(Some(x)));
}

/// Linking a new child preserves well-formedness.
pub proof fn lemma_put_new_child_wf(v: FsView, dir: nat, name: Seq<u8>, node: NodeView, s: Stat)
    requires
        fs_wf(v),
        !(node is Directory),
    ensures
        fs_wf(put_new_child_spec(v, dir, name, node, s).0),
{
    let num = v.len();
    let x = INodeView { stat: stat_with_nlink(s, 0), node };
    let v2 = v.push(Some(x));
    lemma_push_some_wf(v, x);
    if add_child_spec(v2, dir, name, num).1 is Ok {
        lemma_add_child_wf(v2, dir, name, num);
    }
}

/// Replacing an inode's metadata while keeping its link count preserves
/// well-formedness.
pub proof fn lemma_set_stat_keep_nlink_wf(v: FsView, j: int, s: Stat)
    requires
        fs_wf(v),
        0 <= j < v.len(),
        v[j] is Some,
        s.nlink == v[j]->Some_0.stat.nlink,
    ensures
        fs_wf(set_stat_spec(v, j, s)),
{
    let v2 = set_stat_spec(v, j, s);
    assert forall|i: int| 0 <= i < v2.len() implies #[trigger] slot_ok(v2, i) by {
        assert(slot_ok(v, i));
        match v2[i] {
            Some(nd) => match nd.node {
                NodeView::Directory(es) => {
                    assert(v2[i]->Some_0.node == v[i]->Some_0.node);
                    assert forall|m: int| 0 <= m < es.len() implies entry_ok(v2, #[trigger] es[m]) by {
                        assert(entry_ok(v, es[m]));
                    }
                },
                _ => {},
            },
            None => {},
        }
    }
    assert(v2[0] is Some && v2[0]->Some_0.node is Directory);
    assert forall|i: int| 0 <= i < v2.len() && v2[i] is Some implies (#[trigger] v2[i])
        ->Some_0.stat.nlink == count_refs(v2, i as nat) by {
        lemma_count_refs_set_stat(v, j, s, i as nat);
    }
}

/// What `write_directory_metadata` does: resolve or create the path,
/// follow tail links, and replace the directory's metadata, keeping the
/// filesystem-maintained link count.
pub open spec fn write_directory_metadata_spec(v: FsView, p: Seq<u8>, s: Stat)
    -> (FsView, Result<(), VFSError>)
{
    let (v1, rr) = roc_spec(
        v,
        PATH_SEGMENT_LIMIT as nat,
        SYMBOLIC_LINK_LIMIT as nat,
        0,
        split_path_spec(p),
    );
    match rr {
        Err(e) => (v1, Err(e)),
        Ok(w) => match resolve_symlinks_spec(v1, w.ps, w.sl, w.entry) {
            Err(e) => (v1, Err(e)),
            Ok(w2) => match node_at(v1, w2.entry.child) {
                Err(e) => (v1, Err(e)),
                Ok(n) => {
                    if n.node is Directory {
                        (
                            set_stat_spec(
                                v1,
                                w2.entry.child as int,
                                stat_with_nlink(s, n.stat.nlink),
                            ),
                            Ok(()),
                        )
                    } else {
                        (v1, Err(VFSError::DirectoryExpected))
                    }
                },
            },
        },
    }
}

/// What `write_file` does.
pub open spec fn write_file_spec(v: FsView, p: Seq<u8>, data: Option<StorageKey>, s: Stat)
    -> (FsView, Result<(), VFSError>)
{
    let (v1, rr) = roc_parent_spec(v, PATH_SEGMENT_LIMIT as nat, SYMBOLIC_LINK_LIMIT as nat, p);
    match rr {
        Err(e) => (v1, Err(e)),
        Ok((dir, name)) => {
            let node = match data {
                Some(k) => NodeView::NormalFile(k),
                None => NodeView::EmptyFile,
            };
            put_new_child_spec(v1, dir, name, node, s)
        },
    }
}

/// What `write_symlink` does.
pub open spec fn write_symlink_spec(v: FsView, p: Seq<u8>, target: Seq<u8>, s: Stat)
    -> (FsView, Result<(), VFSError>)
{
    let (v1, rr) = roc_parent_spec(v, PATH_SEGMENT_LIMIT as nat, SYMBOLIC_LINK_LIMIT as nat, p);
    match rr {
        Err(e) => (v1, Err(e)),
        Ok((dir, name)) => put_new_child_spec(v1, dir, name, NodeView::SymbolicLink(target), s),
    }
}

/// What `write_fifo` does.
pub open spec fn write_fifo_spec(v: FsView, p: Seq<u8>, s: Stat) -> (FsView, Result<(), VFSError>) {
    let (v1, rr) = roc_parent_spec(v, PATH_SEGMENT_LIMIT as nat, SYMBOLIC_LINK_LIMIT as nat, p);
    match rr {
        Err(e) => (v1, Err(e)),
        Ok((dir, name)) => put_new_child_spec(v1, dir, name, NodeView::Fifo, s),
    }
}

/// What `write_char_device` does.
pub open spec fn write_char_device_spec(v: FsView, p: Seq<u8>, s: Stat, major: u32, minor: u32)
    -> (FsView, Result<(), VFSError>)
{
    let (v1, rr) = roc_parent_spec(v, PATH_SEGMENT_LIMIT as nat, SYMBOLIC_LINK_LIMIT as nat, p);
    match rr {
        Err(e) => (v1, Err(e)),
        Ok((dir, name)) => put_new_child_spec(v1, dir, name, NodeView::Char(major, minor), s),
    }
}

/// What `write_block_device` does.
pub open spec fn write_block_device_spec(v: FsView, p: Seq<u8>, s: Stat, major: u32, minor: u32)
    -> (FsView, Result<(), VFSError>)
{
    let (v1, rr) = roc_parent_spec(v, PATH_SEGMENT_LIMIT as nat, SYMBOLIC_LINK_LIMIT as nat, p);
    match rr {
        Err(e) => (v1, Err(e)),
        Ok((dir, name)) => put_new_child_spec(v1, dir, name, NodeView::Block(major, minor), s),
    }
}

/// What `write_hardlink` does: resolve the existing node (not following a
/// tail link), then link it under the new path's parent. Both walks share
/// one budget.
pub open spec fn write_hardlink_spec(v: FsView, p: Seq<u8>, link_to: Seq<u8>)
    -> (FsView, Result<(), VFSError>)
{
    match resolve_path_spec(
        v,
        PATH_SEGMENT_LIMIT as nat,
        SYMBOLIC_LINK_LIMIT as nat,
        0,
        split_path_spec(link_to),
    ) {
        Err(e) => (v, Err(e)),
        Ok(w) => {
            let child = w.entry.child;
            let (v1, rr) = roc_parent_spec(v, w.ps, w.sl, p);
            match rr {
                Err(e) => (v1, Err(e)),
                Ok((dir, name)) => add_child_spec(v1, dir, name, child),
            }
        },
    }
}

impl VFSWriter {
    /// Resolve or create the parent directory of `path`, returning it with
    /// the final name.
    fn resolve_or_create_parent(&mut self, limits: &mut Limits, path: &[u8])
        -> (r: Result<(usize, Vec<u8>), VFSError>)
        ensures
            ({
                let (v2, sr) = roc_parent_spec(
                    old(self)@,
                    old(limits).path_segment as nat,
                    old(limits).symbolic_link as nat,
                    path@,
                );
                final(self)@ == v2 && match r {
                    Ok((dir, name)) => sr == Ok::<(nat, Seq<u8>), VFSError>(
                        (dir as nat, name@),
                    ),
                    Err(e) => sr == Err::<(nat, Seq<u8>), VFSError>(e),
                }
            }),
    {
        let mut segs = split_path(path);
        let ghost segs_view = segs@.map_values(|s: Vec<u8>| s@);
        let name = match segs.pop() {
            Some(name) => name,
            None => {
                return Err(VFSError::NotFound);
            },
        };
        proof {
            assert(segs@.map_values(|s: Vec<u8>| s@) =~= segs_view.drop_last());
            assert(name@ == segs_view.last());
        }
        let refused = if name.len() == 1 {
            name[0] == SLASH || name[0] == 46
        } else if name.len() == 2 {
            name[0] == 46 && name[1] == 46
        } else {
            false
        };
        proof {
            if name@.len() == 1 {
                assert(name@ =~= seq![name@[0]]);
            }
            if name@.len() == 2 {
                if name@[0] == 46 && name@[1] == 46 {
                    assert(name@ =~= seq![46u8, 46u8]);
                }
                assert(name@ != seq![SLASH] && name@ != seq![46u8]);
            }
            if name@.len() != 1 && name@.len() != 2 {
                assert(name@ != seq![SLASH] && name@ != seq![46u8]
                    && name@ != seq![46u8, 46u8]);
            }
            if name@.len() == 2 && !(name@[0] == 46 && name@[1] == 46) {
                assert(name@ != seq![46u8, 46u8]);
            }
        }
        if refused {
            return Err(VFSError::NotFound);
        }
        let entry = match self.resolve_or_create_path(limits, 0, &segs) {
            Ok(e) => e,
            Err(e) => {
                return Err(e);
            },
        };
        let entry = match self.fs.resolve_symlinks(limits, entry) {
            Ok(e) => e,
            Err(e) => {
                return Err(e);
            },
        };
        Ok((entry.child, name))
    }

    /// Allocate a new inode with the given payload and metadata (its link
    /// count starts at zero) and link it as `name` under `dir`.
    fn put_new_child(&mut self, dir: usize, name: &[u8], data: Node, stat: Stat)
        -> (r: Result<(), VFSError>)
        ensures
            ({
                let (v2, res) = put_new_child_spec(old(self)@, dir as nat, name@, data@, stat);
                final(self)@ == v2 && r == res
            }),
    {
        let ghost node_view = data@;
        let num = self.alloc_inode_number();
        let inode = INode {
            stat: Stat {
                mode: stat.mode,
                uid: stat.uid,
                gid: stat.gid,
                mtime: stat.mtime,
                nlink: 0,
                size: stat.size,
            },
            data,
        };
        self.put_inode(num, inode);
        proof {
            assert(self@ =~= old(self)@.push(
                Some(INodeView { stat: stat_with_nlink(stat, 0), node: node_view }),
            ));
        }
        self.add_child_to_directory(dir, name, num)
    }

    /// Resolve or create `path` as a directory and replace its metadata.
    /// The link count is maintained by the filesystem and keeps its value.
    pub fn write_directory_metadata(&mut self, path: &[u8], stat: Stat)
        -> (r: Result<(), VFSError>)
        requires
            fs_wf(old(self)@),
        ensures
            ({
                let (v2, res) = write_directory_metadata_spec(old(self)@, path@, stat);
                final(self)@ == v2 && r == res
            }),
            fs_wf(final(self)@),
    {
        let ghost v0 = self@;
        let mut limits = Limits::reset();
        let segs = split_path(path);
        proof {
            lemma_roc_wf(
                v0,
                PATH_SEGMENT_LIMIT as nat,
                SYMBOLIC_LINK_LIMIT as nat,
                0,
                split_path_spec(path@),
            );
        }
        let entry = match self.resolve_or_create_path(&mut limits, 0, &segs) {
            Ok(e) => e,
            Err(e) => {
                return Err(e);
            },
        };
        let entry = match self.fs.resolve_symlinks(&mut limits, entry) {
            Ok(e) => e,
            Err(e) => {
                return Err(e);
            },
        };
        let (is_dir, nlink) = match self.fs.get_inode(entry.child) {
            Err(e) => {
                return Err(e);
            },
            Ok(n) => (
                match &n.data {
                    Node::Directory(_) => true,
                    _ => false,
                },
                n.stat.nlink,
            ),
        };
        if !is_dir {
            return Err(VFSError::DirectoryExpected);
        }
        proof {
            assert(node_at(self@, entry.child as nat) is Ok);
            assert(entry.child < self.fs.inodes@.len());
        }
        let slot = &mut self.fs.inodes[entry.child];
        match slot {
            Some(inode) => {
                inode.stat = Stat {
                    mode: stat.mode,
                    uid: stat.uid,
                    gid: stat.gid,
                    mtime: stat.mtime,
                    nlink,
                    size: stat.size,
                };
            },
            None => {
                proof {
                    assert(false);
                }
            },
        }
        proof {
            let (v1, _) = roc_spec(
                v0,
                PATH_SEGMENT_LIMIT as nat,
                SYMBOLIC_LINK_LIMIT as nat,
                0,
                split_path_spec(path@),
            );
            assert(self@ =~= set_stat_spec(v1, entry.child as int, stat_with_nlink(stat, nlink)));
            lemma_set_stat_keep_nlink_wf(v1, entry.child as int, stat_with_nlink(stat, nlink));
        }
        Ok(())
    }

    /// Write a regular file (`data` holds its content key; `None` means an
    /// empty file) at `path`, creating parent directories as needed. The
    /// new inode's link count is maintained by the filesystem.
    pub fn write_file(&mut self, path: &[u8], data: Option<StorageKey>, stat: Stat)
        -> (r: Result<(), VFSError>)
        requires
            fs_wf(old(self)@),
        ensures
            ({
                let (v2, res) = write_file_spec(old(self)@, path@, data, stat);
                final(self)@ == v2 && r == res
            }),
            fs_wf(final(self)@),
    {
        let ghost v0 = self@;
        let mut limits = Limits::reset();
        proof {
            lemma_roc_parent_wf(
                v0,
                PATH_SEGMENT_LIMIT as nat,
                SYMBOLIC_LINK_LIMIT as nat,
                path@,
            );
        }
        let (dir, name) = match self.resolve_or_create_parent(&mut limits, path) {
            Ok(x) => x,
            Err(e) => {
                return Err(e);
            },
        };
        let node = match data {
            Some(k) => Node::NormalFile(k),
            None => Node::EmptyFile,
        };
        let r = self.put_new_child(dir, name.as_slice(), node, stat);
        proof {
            let (v1, _) = roc_parent_spec(
                v0,
                PATH_SEGMENT_LIMIT as nat,
                SYMBOLIC_LINK_LIMIT as nat,
                path@,
            );
            lemma_put_new_child_wf(v1, dir as nat, name@, match data {
                Some(k) => NodeView::NormalFile(k),
                None => NodeView::EmptyFile,
            }, stat);
        }
        r
    }

    /// Write a symbolic link holding `link_to` at `path`.
    pub fn write_symlink(&mut self, path: &[u8], link_to: &[u8], stat: Stat)
        -> (r: Result<(), VFSError>)
        requires
            fs_wf(old(self)@),
        ensures
            ({
                let (v2, res) = write_symlink_spec(old(self)@, path@, link_to@, stat);
                final(self)@ == v2 && r == res
            }),
            fs_wf(final(self)@),
    {
        let ghost v0 = self@;
        let mut limits = Limits::reset();
        proof {
            lemma_roc_parent_wf(
                v0,
                PATH_SEGMENT_LIMIT as nat,
                SYMBOLIC_LINK_LIMIT as nat,
                path@,
            );
        }
        let (dir, name) = match self.resolve_or_create_parent(&mut limits, path) {
            Ok(x) => x,
            Err(e) => {
                return Err(e);
            },
        };
        let target = slice_to_vec(link_to);
        let r = self.put_new_child(dir, name.as_slice(), Node::SymbolicLink(target), stat);
        proof {
            let (v1, _) = roc_parent_spec(
                v0,
                PATH_SEGMENT_LIMIT as nat,
                SYMBOLIC_LINK_LIMIT as nat,
                path@,
            );
            lemma_put_new_child_wf(v1, dir as nat, name@, NodeView::SymbolicLink(link_to@), stat);
        }
        r
    }

    /// Link the node at `link_to` a second time, as `path`.
    pub fn write_hardlink(&mut self, path: &[u8], link_to: &[u8]) -> (r: Result<(), VFSError>)
        requires
            fs_wf(old(self)@),
        ensures
            ({
                let (v2, res) = write_hardlink_spec(old(self)@, path@, link_to@);
                final(self)@ == v2 && r == res
            }),
            fs_wf(final(self)@),
    {
        let ghost v0 = self@;
        let mut limits = Limits::reset();
        let segs_t = split_path(link_to);
        let link_node = match self.fs.resolve_path(&mut limits, 0, &segs_t) {
            Ok(e) => e.child,
            Err(e) => {
                return Err(e);
            },
        };
        proof {
            let w = resolve_path_spec(
                v0,
                PATH_SEGMENT_LIMIT as nat,
                SYMBOLIC_LINK_LIMIT as nat,
                0,
                split_path_spec(link_to@),
            )->Ok_0;
            lemma_roc_parent_wf(v0, w.ps, w.sl, path@);
        }
        let (dir, name) = match self.resolve_or_create_parent(&mut limits, path) {
            Ok(x) => x,
            Err(e) => {
                return Err(e);
            },
        };
        let r = self.add_child_to_directory(dir, name.as_slice(), link_node);
        proof {
            let w = resolve_path_spec(
                v0,
                PATH_SEGMENT_LIMIT as nat,
                SYMBOLIC_LINK_LIMIT as nat,
                0,
                split_path_spec(link_to@),
            )->Ok_0;
            let (v1, _) = roc_parent_spec(v0, w.ps, w.sl, path@);
            if add_child_spec(v1, dir as nat, name@, link_node as nat).1 is Ok {
                lemma_add_child_wf(v1, dir as nat, name@, link_node as nat);
            }
        }
        r
    }

    /// Write a named pipe at `path`.
    pub fn write_fifo(&mut self, path: &[u8], stat: Stat) -> (r: Result<(), VFSError>)
        requires
            fs_wf(old(self)@),
        ensures
            ({
                let (v2, res) = write_fifo_spec(old(self)@, path@, stat);
                final(self)@ == v2 && r == res
            }),
            fs_wf(final(self)@),
    {
        let ghost v0 = self@;
        let mut limits = Limits::reset();
        proof {
            lemma_roc_parent_wf(
                v0,
                PATH_SEGMENT_LIMIT as nat,
                SYMBOLIC_LINK_LIMIT as nat,
                path@,
            );
        }
        let (dir, name) = match self.resolve_or_create_parent(&mut limits, path) {
            Ok(x) => x,
            Err(e) => {
                return Err(e);
            },
        };
        let r = self.put_new_child(dir, name.as_slice(), Node::Fifo, stat);
        proof {
            let (v1, _) = roc_parent_spec(
                v0,
                PATH_SEGMENT_LIMIT as nat,
                SYMBOLIC_LINK_LIMIT as nat,
                path@,
            );
            lemma_put_new_child_wf(v1, dir as nat, name@, NodeView::Fifo, stat);
        }
        r
    }

    /// Write a character device node at `path`.
    pub fn write_char_device(&mut self, path: &[u8], stat: Stat, major: u32, minor: u32)
        -> (r: Result<(), VFSError>)
        requires
            fs_wf(old(self)@),
        ensures
            ({
                let (v2, res) = write_char_device_spec(old(self)@, path@, stat, major, minor);
                final(self)@ == v2 && r == res
            }),
            fs_wf(final(self)@),
    {
        let ghost v0 = self@;
        let mut limits = Limits::reset();
        proof {
            lemma_roc_parent_wf(
                v0,
                PATH_SEGMENT_LIMIT as nat,
                SYMBOLIC_LINK_LIMIT as nat,
                path@,
            );
        }
        let (dir, name) = match self.resolve_or_create_parent(&mut limits, path) {
            Ok(x) => x,
            Err(e) => {
                return Err(e);
            },
        };
        let r = self.put_new_child(dir, name.as_slice(), Node::Char(major, minor), stat);
        proof {
            let (v1, _) = roc_parent_spec(
                v0,
                PATH_SEGMENT_LIMIT as nat,
                SYMBOLIC_LINK_LIMIT as nat,
                path@,
            );
            lemma_put_new_child_wf(v1, dir as nat, name@, NodeView::Char(major, minor), stat);
        }
        r
    }

    /// Write a block device node at `path`.
    pub fn write_block_device(&mut self, path: &[u8], stat: Stat, major: u32, minor: u32)
        -> (r: Result<(), VFSError>)
        requires
            fs_wf(old(self)@),
        ensures
            ({
                let (v2, res) = write_block_device_spec(old(self)@, path@, stat, major, minor);
                final(self)@ == v2 && r == res
            }),
            fs_wf(final(self)@),
    {
        let ghost v0 = self@;
        let mut limits = Limits::reset();
        proof {
            lemma_roc_parent_wf(
                v0,
                PATH_SEGMENT_LIMIT as nat,
                SYMBOLIC_LINK_LIMIT as nat,
                path@,
            );
        }
        let (dir, name) = match self.resolve_or_create_parent(&mut limits, path) {
            Ok(x) => x,
            Err(e) => {
                return Err(e);
            },
        };
        let r = self.put_new_child(dir, name.as_slice(), Node::Block(major, minor), stat);
        proof {
            let (v1, _) = roc_parent_spec(
                v0,
                PATH_SEGMENT_LIMIT as nat,
                SYMBOLIC_LINK_LIMIT as nat,
                path@,
            );
            lemma_put_new_child_wf(v1, dir as nat, name@, NodeView::Block(major, minor), stat);
        }
        r
    }
}


/// A walk whose lookup budget is already spent reports the segment limit,
/// never `NotFound`, whatever the filesystem holds.
pub proof fn lemma_spent_segment_budget(v: FsView, sl: nat, parent: nat, segs: Seq<Seq<u8>>)
    requires
        segs.len() > 0,
    ensures
        resolve_path_spec(v, 0, sl, parent, segs) == Err::<WalkOk, VFSError>(
            VFSError::PathSegmentLimitExceeded,
        ),
{
}

/// A link chase whose link budget is already spent reports the link
/// limit, never `NotFound`, whatever the target holds.
pub proof fn lemma_spent_symlink_budget(v: FsView, ps: nat, entry: EntryRefView)
    requires
        node_at(v, entry.child) is Ok,
        node_at(v, entry.child)->Ok_0.node is SymbolicLink,
    ensures
        resolve_symlinks_spec(v, ps, 0, entry) == Err::<WalkOk, VFSError>(
            VFSError::SymbolicLinkLimitExceeded,
        ),
{
}

/// Every segment costs at least one unit of lookup budget.
pub proof fn lemma_walk_cont_consumes(
    v: FsView,
    ps: nat,
    sl: nat,
    entry: EntryRefView,
    segs: Seq<Seq<u8>>,
    i: nat,
)
    requires
        i <= segs.len(),
    ensures
        walk_cont_spec(v, ps, sl, entry, segs, i) matches Ok(w) ==> w.ps + (segs.len() - i) <= ps,
    decreases sl, 1nat, ps, segs.len() - i,
{
    if i < segs.len() {
        lemma_resolve_symlinks_budgets(v, ps, sl, entry);
        match resolve_symlinks_spec(v, ps, sl, entry) {
            Err(_) => {},
            Ok(w) => {
                let psa = if w.ps <= ps { w.ps } else { ps };
                let sla = if w.sl <= sl { w.sl } else { sl };
                match seg_step_spec(v, psa, sla, w.entry.child, segs[i as int]) {
                    Err(_) => {},
                    Ok(w2) => {
                        lemma_walk_cont_consumes(v, w2.ps, w2.sl, w2.entry, segs, i + 1);
                    },
                }
            },
        }
    }
}

/// A path of more segments than the walk's whole lookup budget cannot be
/// opened.
pub proof fn lemma_segment_limit(v: FsView, p: Seq<u8>)
    requires
        split_path_spec(p).len() > PATH_SEGMENT_LIMIT,
    ensures
        open_spec(v, p) is Err,
{
    let segs = split_path_spec(p);
    let ps = PATH_SEGMENT_LIMIT as nat;
    match resolve_path_spec(v, ps, SYMBOLIC_LINK_LIMIT as nat, 0, segs) {
        Err(_) => {},
        Ok(w) => {
            match seg_step_spec(v, ps, SYMBOLIC_LINK_LIMIT as nat, 0, segs[0]) {
                Err(_) => {
                    assert(false);
                },
                Ok(w0) => {
                    lemma_walk_cont_consumes(v, w0.ps, w0.sl, w0.entry, segs, 1);
                    assert(false);
                },
            }
        },
    }
}

/// Splitting the final segment off a partial walk: walking `segs[i..]`
/// equals walking all but the last, resolving links, then one lookup of
/// the last segment.
pub proof fn lemma_walk_cont_snoc(
    v: FsView,
    ps: nat,
    sl: nat,
    entry: EntryRefView,
    segs: Seq<Seq<u8>>,
    i: nat,
)
    requires
        segs.len() >= 1,
        i < segs.len(),
    ensures
        walk_cont_spec(v, ps, sl, entry, segs, i) == ({
            match walk_cont_spec(v, ps, sl, entry, segs.drop_last(), i) {
                Err(e) => Err::<WalkOk, VFSError>(e),
                Ok(w) => match resolve_symlinks_spec(v, w.ps, w.sl, w.entry) {
                    Err(e) => Err(e),
                    Ok(w2) => {
                        let psa = if w2.ps <= w.ps { w2.ps } else { w.ps };
                        let sla = if w2.sl <= w.sl { w2.sl } else { w.sl };
                        seg_step_spec(v, psa, sla, w2.entry.child, segs.last())
                    },
                },
            }
        }),
    decreases sl, 1nat, ps, segs.len() - i,
{
    let short = segs.drop_last();
    if i == segs.len() - 1 {
        // the walk of the shortened list ends right away
        assert(walk_cont_spec(v, ps, sl, entry, short, i) == Ok::<WalkOk, VFSError>(
            WalkOk { entry, ps, sl },
        ));
        assert(segs[i as int] == segs.last());
        match resolve_symlinks_spec(v, ps, sl, entry) {
            Err(_) => {},
            Ok(w) => {
                let psa = if w.ps <= ps { w.ps } else { ps };
                let sla = if w.sl <= sl { w.sl } else { sl };
                match seg_step_spec(v, psa, sla, w.entry.child, segs.last()) {
                    Err(_) => {},
                    Ok(w2) => {
                        assert(walk_cont_spec(v, w2.ps, w2.sl, w2.entry, segs, i + 1)
                            == Ok::<WalkOk, VFSError>(w2));
                    },
                }
            },
        }
    } else {
        assert(short[i as int] == segs[i as int]);
        match resolve_symlinks_spec(v, ps, sl, entry) {
            Err(_) => {},
            Ok(w) => {
                let psa = if w.ps <= ps { w.ps } else { ps };
                let sla = if w.sl <= sl { w.sl } else { sl };
                match seg_step_spec(v, psa, sla, w.entry.child, segs[i as int]) {
                    Err(_) => {},
                    Ok(w2) => {
                        lemma_walk_cont_snoc(v, w2.ps, w2.sl, w2.entry, segs, i + 1);
                    },
                }
            },
        }
    }
}

/// Opening a path agrees with walking its parent and looking the final
/// name up directly: when `open(p)` succeeds and the tail is not a
/// symbolic link, the inode it returns is exactly the parent directory's
/// entry for the last segment.
pub proof fn lemma_open_matches_parent_lookup(v: FsView, p: Seq<u8>)
    requires
        fs_shape_wf(v),
        open_spec(v, p) is Ok,
        split_path_spec(p).len() >= 1,
        split_path_spec(p).last() != seq![SLASH],
    ensures
        ({
            let segs = split_path_spec(p);
            let pre = resolve_path_spec(
                v,
                PATH_SEGMENT_LIMIT as nat,
                SYMBOLIC_LINK_LIMIT as nat,
                0,
                segs.drop_last(),
            );
            &&& pre is Ok
            &&& ({
                let w = pre->Ok_0;
                let rsw = resolve_symlinks_spec(v, w.ps, w.sl, w.entry);
                &&& rsw is Ok
                &&& ({
                    let d = rsw->Ok_0.entry.child;
                    &&& node_at(v, d) is Ok
                    &&& node_at(v, d)->Ok_0.node is Directory
                    &&& ({
                        let es = node_at(v, d)->Ok_0.node->Directory_0;
                        &&& dir_lookup(es, segs.last()) is Some
                        &&& ({
                            let m = dir_lookup(es, segs.last())->Some_0;
                            node_at(v, m) is Ok
                                && !(node_at(v, m)->Ok_0.node is SymbolicLink)
                                ==> open_spec(v, p) == Ok::<nat, VFSError>(m)
                        })
                    })
                })
            })
        }),
{
    let ps = PATH_SEGMENT_LIMIT as nat;
    let sl = SYMBOLIC_LINK_LIMIT as nat;
    let segs = split_path_spec(p);
    let n = segs.len();
    let full = resolve_path_spec(v, ps, sl, 0, segs);
    let pre = resolve_path_spec(v, ps, sl, 0, segs.drop_last());
    if n == 1 {
        assert(segs.drop_last().len() == 0);
        assert(pre == Ok::<WalkOk, VFSError>(
            WalkOk { entry: EntryRefView { parent: 0, child: 0 }, ps, sl },
        ));
        // the root is a directory, so tail-link resolution is the identity
        assert(resolve_symlinks_spec(v, ps, sl, EntryRefView { parent: 0, child: 0 })
            == Ok::<WalkOk, VFSError>(
            WalkOk { entry: EntryRefView { parent: 0, child: 0 }, ps, sl },
        ));
        match seg_step_spec(v, ps, sl, 0, segs[0]) {
            Err(_) => {
                assert(false);
            },
            Ok(w0) => {
                assert(segs[0] == segs.last());
                assert(full == walk_cont_spec(v, w0.ps, w0.sl, w0.entry, segs, 1));
                assert(full == Ok::<WalkOk, VFSError>(w0));
            },
        }
    } else {
        match seg_step_spec(v, ps, sl, 0, segs[0]) {
            Err(_) => {
                assert(false);
            },
            Ok(w0) => {
                assert(segs.drop_last()[0] == segs[0]);
                lemma_walk_cont_snoc(v, w0.ps, w0.sl, w0.entry, segs, 1);
                match walk_cont_spec(v, w0.ps, w0.sl, w0.entry, segs.drop_last(), 1) {
                    Err(_) => {
                        assert(false);
                    },
                    Ok(w) => {
                        assert(pre == Ok::<WalkOk, VFSError>(w));
                        match resolve_symlinks_spec(v, w.ps, w.sl, w.entry) {
                            Err(_) => {
                                assert(false);
                            },
                            Ok(w2) => {
                                lemma_resolve_symlinks_budgets(v, w.ps, w.sl, w.entry);
                            },
                        }
                    },
                }
            },
        }
    }
}


/// Lookup distributes over concatenation: the front of the list wins.
pub proof fn lemma_dir_lookup_concat(es: Seq<DirEntryView>, extra: Seq<DirEntryView>, name: Seq<u8>)
    ensures
        dir_lookup(es + extra, name) == if dir_lookup(es, name) is Some {
            dir_lookup(es, name)
        } else {
            dir_lookup(extra, name)
        },
    decreases es.len(),
{
    if es.len() == 0 {
        assert(es + extra =~= extra);
    } else {
        assert((es + extra)[0] == es[0]);
        assert((es + extra).skip(1) =~= es.skip(1) + extra);
        lemma_dir_lookup_concat(es.skip(1), extra, name);
    }
}

/// One inode extends another: a directory may gain entries at the back,
/// any other payload is unchanged; metadata is free to differ.
pub open spec fn node_ext(a: INodeView, b: INodeView) -> bool {
    match a.node {
        NodeView::Directory(es) => match b.node {
            NodeView::Directory(es2) => es2.len() >= es.len() && forall|k: int|
                0 <= k < es.len() ==> es2[k] == es[k],
            _ => false,
        },
        _ => b.node == a.node,
    }
}

/// One filesystem extends another: it may gain inodes at the back, and
/// every allocated inode extends its old self.
pub open spec fn fs_ext(v: FsView, v2: FsView) -> bool {
    &&& v2.len() >= v.len()
    &&& forall|i: int|
        0 <= i < v.len() && v[i] is Some ==> (#[trigger] v2[i]) is Some && node_ext(
            v[i]->Some_0,
            v2[i]->Some_0,
        )
}

pub proof fn lemma_fs_ext_refl(v: FsView)
    ensures
        fs_ext(v, v),
{
}

pub proof fn lemma_fs_ext_trans(a: FsView, b: FsView, c: FsView)
    requires
        fs_ext(a, b),
        fs_ext(b, c),
    ensures
        fs_ext(a, c),
{
    assert forall|i: int| 0 <= i < a.len() && a[i] is Some implies (#[trigger] c[i]) is Some
        && node_ext(a[i]->Some_0, c[i]->Some_0) by {
        assert(b[i] is Some && node_ext(a[i]->Some_0, b[i]->Some_0));
        assert(c[i] is Some && node_ext(b[i]->Some_0, c[i]->Some_0));
    }
}

/// A lookup that succeeds still succeeds, unchanged, after entries are
/// appended.
pub proof fn lemma_dir_lookup_prefix(es: Seq<DirEntryView>, es2: Seq<DirEntryView>, name: Seq<u8>)
    requires
        es2.len() >= es.len(),
        forall|k: int| 0 <= k < es.len() ==> es2[k] == es[k],
        dir_lookup(es, name) is Some,
    ensures
        dir_lookup(es2, name) == dir_lookup(es, name),
    decreases es.len(),
{
    if es.len() > 0 {
        assert(es2[0] == es[0]);
        if es[0].name != name {
            assert forall|k: int| 0 <= k < es.skip(1).len() implies es2.skip(1)[k]
                == es.skip(1)[k] by {
                assert(es.skip(1)[k] == es[k + 1] && es2.skip(1)[k] == es2[k + 1]);
            }
            lemma_dir_lookup_prefix(es.skip(1), es2.skip(1), name);
        }
    }
}

/// A successful lookup step is stable under filesystem extension.
pub proof fn lemma_seg_step_ext(v: FsView, v2: FsView, ps: nat, sl: nat, parent: nat, seg: Seq<u8>)
    requires
        fs_ext(v, v2),
        seg_step_spec(v, ps, sl, parent, seg) is Ok,
    ensures
        seg_step_spec(v2, ps, sl, parent, seg) == seg_step_spec(v, ps, sl, parent, seg),
{
    if ps > 0 && seg != seq![SLASH] {
        let n = node_at(v, parent)->Ok_0;
        let es = n.node->Directory_0;
        let es2 = node_at(v2, parent)->Ok_0.node->Directory_0;
        lemma_dir_lookup_prefix(es, es2, seg);
    }
}

/// A successful link chase is stable under filesystem extension.
pub proof fn lemma_resolve_symlinks_ext(v: FsView, v2: FsView, ps: nat, sl: nat, entry: EntryRefView)
    requires
        fs_ext(v, v2),
        resolve_symlinks_spec(v, ps, sl, entry) is Ok,
    ensures
        resolve_symlinks_spec(v2, ps, sl, entry) == resolve_symlinks_spec(v, ps, sl, entry),
    decreases sl, 0nat, ps, 0nat,
{
    let n = node_at(v, entry.child)->Ok_0;
    match n.node {
        NodeView::SymbolicLink(target) => {
            let sl1 = (sl - 1) as nat;
            let segs = split_path_spec(target);
            lemma_resolve_path_ext(v, v2, ps, sl1, entry.parent, segs);
            match resolve_path_spec(v, ps, sl1, entry.parent, segs) {
                Err(_) => {},
                Ok(w) => {
                    let ps2 = if w.ps <= ps { w.ps } else { ps };
                    let sl2 = if w.sl <= sl1 { w.sl } else { sl1 };
                    lemma_resolve_symlinks_ext(v, v2, ps2, sl2, w.entry);
                },
            }
        },
        _ => {},
    }
}

/// A successful partial walk is stable under filesystem extension.
pub proof fn lemma_walk_cont_ext(
    v: FsView,
    v2: FsView,
    ps: nat,
    sl: nat,
    entry: EntryRefView,
    segs: Seq<Seq<u8>>,
    i: nat,
)
    requires
        fs_ext(v, v2),
        walk_cont_spec(v, ps, sl, entry, segs, i) is Ok,
    ensures
        walk_cont_spec(v2, ps, sl, entry, segs, i) == walk_cont_spec(v, ps, sl, entry, segs, i),
    decreases sl, 1nat, ps, segs.len() - i,
{
    if i < segs.len() {
        lemma_resolve_symlinks_ext(v, v2, ps, sl, entry);
        match resolve_symlinks_spec(v, ps, sl, entry) {
            Err(_) => {},
            Ok(w) => {
                let psa = if w.ps <= ps { w.ps } else { ps };
                let sla = if w.sl <= sl { w.sl } else { sl };
                lemma_seg_step_ext(v, v2, psa, sla, w.entry.child, segs[i as int]);
                match seg_step_spec(v, psa, sla, w.entry.child, segs[i as int]) {
                    Err(_) => {},
                    Ok(w2) => {
                        lemma_walk_cont_ext(v, v2, w2.ps, w2.sl, w2.entry, segs, i + 1);
                    },
                }
            },
        }
    }
}

/// A successful walk is stable under filesystem extension.
pub proof fn lemma_resolve_path_ext(
    v: FsView,
    v2: FsView,
    ps: nat,
    sl: nat,
    parent: nat,
    segs: Seq<Seq<u8>>,
)
    requires
        fs_ext(v, v2),
        resolve_path_spec(v, ps, sl, parent, segs) is Ok,
    ensures
        resolve_path_spec(v2, ps, sl, parent, segs) == resolve_path_spec(v, ps, sl, parent, segs),
    decreases sl, 2nat, ps, 0nat,
{
    if segs.len() > 0 {
        lemma_seg_step_ext(v, v2, ps, sl, parent, segs[0]);
        match seg_step_spec(v, ps, sl, parent, segs[0]) {
            Err(_) => {},
            Ok(w) => {
                lemma_walk_cont_ext(v, v2, w.ps, w.sl, w.entry, segs, 1);
            },
        }
    }
}

/// Creating and linking a child directory only extends the filesystem.
pub proof fn lemma_alloc_child_ext(v: FsView, parent: nat, name: Seq<u8>)
    requires
        node_at(v, parent) is Ok,
        node_at(v, parent)->Ok_0.node is Directory,
        dir_lookup(node_at(v, parent)->Ok_0.node->Directory_0, name) is None,
        node_at(v, parent)->Ok_0.stat.nlink < u64::MAX,
    ensures
        fs_ext(v, alloc_child_spec(v, parent, name)),
        ({
            let out = alloc_child_spec(v, parent, name);
            &&& out.len() == v.len() + 1
            &&& out[parent as int]->Some_0.node->Directory_0 == node_at(
                v,
                parent,
            )->Ok_0.node->Directory_0.push(DirEntryView { name, node: v.len() })
        }),
{
    lemma_alloc_child_ok(v, parent, name);
    let num = v.len();
    let pn = node_at(v, parent)->Ok_0;
    let es = pn.node->Directory_0;
    let v2 = v.push(None).update(num as int, Some(fresh_dir_view(num)));
    let cn = node_at(v2, num)->Ok_0;
    let v2a = set_stat_spec(v2, num as int, stat_with_nlink(cn.stat, 2));
    lemma_dir_index_of(es, name);
    let v3 = add_child_spec(v2, parent, name, num).0;
    assert(v3 == set_dir_entries_spec(v2a, parent as int, es.push(
        DirEntryView { name, node: num },
    )));
    let out = alloc_child_spec(v, parent, name);
    let ds = v3[num as int]->Some_0.node->Directory_0;
    let pn3 = node_at(v3, parent)->Ok_0;
    lemma_dir_index_of(ds, seq![46u8, 46u8]);
    if dir_index_of(ds, seq![46u8, 46u8]) != -1 {
        let k = dir_index_of(ds, seq![46u8, 46u8]);
        assert(ds[k].name == seq![46u8, 46u8]);
        assert(ds[0].name == seq![46u8]);
        assert(false);
    }
    let v3a = set_stat_spec(v3, parent as int, stat_with_nlink(pn3.stat,
        (pn3.stat.nlink + 1) as u64));
    assert(out == set_dir_entries_spec(v3a, num as int, ds.push(
        DirEntryView { name: seq![46u8, 46u8], node: parent },
    )));
    assert(out[parent as int]->Some_0.node->Directory_0 == es.push(
        DirEntryView { name, node: num },
    ));
    assert forall|i: int| 0 <= i < v.len() && v[i] is Some implies (#[trigger] out[i]) is Some
        && node_ext(v[i]->Some_0, out[i]->Some_0) by {
        if i == parent {
            let esp = es.push(DirEntryView { name, node: num });
            assert forall|k: int| 0 <= k < es.len() implies esp[k] == es[k] by {}
        } else {
            assert(out[i]->Some_0.node == v[i]->Some_0.node);
            match v[i]->Some_0.node {
                NodeView::Directory(d) => {
                    assert forall|k: int| 0 <= k < d.len() implies d[k] == d[k] by {}
                },
                _ => {},
            }
        }
    }
}

/// A successful creating step on its own output resolves without
/// creating, in any extension of that output.
pub proof fn lemma_roc_seg_stable(
    vm: FsView,
    ps: nat,
    sl: nat,
    parent: nat,
    seg: Seq<u8>,
    u: FsView,
)
    requires
        roc_seg_spec(vm, ps, sl, parent, seg).1 is Ok,
        fs_ext(roc_seg_spec(vm, ps, sl, parent, seg).0, u),
    ensures
        fs_ext(vm, roc_seg_spec(vm, ps, sl, parent, seg).0),
        roc_seg_spec(u, ps, sl, parent, seg) == (u, roc_seg_spec(vm, ps, sl, parent, seg).1),
{
    let (vm2, step) = roc_seg_spec(vm, ps, sl, parent, seg);
    match seg_step_spec(vm, ps, sl, parent, seg) {
        Ok(w) => {
            lemma_fs_ext_refl(vm);
            lemma_seg_step_ext(vm, u, ps, sl, parent, seg);
        },
        Err(e) => {
            // a fresh directory was created; the extension still holds
            // the entry, in front of anything appended later
            let pn = node_at(vm, parent)->Ok_0;
            let es = pn.node->Directory_0;
            lemma_alloc_child_ext(vm, parent, seg);
            let num = vm.len();
            let newe = DirEntryView { name: seg, node: num };
            let es_mid = es.push(newe);
            let es_u = node_at(u, parent)->Ok_0.node->Directory_0;
            assert(vm2[parent as int]->Some_0.node->Directory_0 == es_mid);
            assert(es_u.len() >= es_mid.len());
            assert(forall|k: int| 0 <= k < es_mid.len() ==> es_u[k] == es_mid[k]);
            assert(dir_lookup(es_mid, seg) == Some(num)) by {
                lemma_dir_lookup_concat(es, seq![newe], seg);
                assert(es + seq![newe] =~= es_mid);
            }
            lemma_dir_lookup_prefix(es_mid, es_u, seg);
            assert(seg_step_spec(u, ps, sl, parent, seg) == Ok::<WalkOk, VFSError>(
                WalkOk {
                    entry: EntryRefView { parent, child: num },
                    ps: (ps - 1) as nat,
                    sl,
                },
            ));
        },
    }
}

/// A successful creating walk on its own output resolves without
/// creating, in any extension of that output.
pub proof fn lemma_roc_cont_stable(
    vm: FsView,
    ps: nat,
    sl: nat,
    entry: EntryRefView,
    segs: Seq<Seq<u8>>,
    i: nat,
    u: FsView,
)
    requires
        roc_cont_spec(vm, ps, sl, entry, segs, i).1 is Ok,
        fs_ext(roc_cont_spec(vm, ps, sl, entry, segs, i).0, u),
    ensures
        fs_ext(vm, roc_cont_spec(vm, ps, sl, entry, segs, i).0),
        roc_cont_spec(u, ps, sl, entry, segs, i) == (
            u,
            roc_cont_spec(vm, ps, sl, entry, segs, i).1,
        ),
    decreases sl, 1nat, ps, segs.len() - i,
{
    let (v1, res) = roc_cont_spec(vm, ps, sl, entry, segs, i);
    if i >= segs.len() {
        lemma_fs_ext_refl(vm);
    } else {
        match resolve_symlinks_spec(vm, ps, sl, entry) {
            Err(_) => {},
            Ok(w) => {
                let psa = if w.ps <= ps { w.ps } else { ps };
                let sla = if w.sl <= sl { w.sl } else { sl };
                let (vm2, step) = roc_seg_spec(vm, psa, sla, w.entry.child, segs[i as int]);
                match step {
                    Err(_) => {},
                    Ok(w2) => {
                        // the later walk only extends the state further
                        lemma_roc_cont_stable(vm2, w2.ps, w2.sl, w2.entry, segs, i + 1, u);
                        lemma_roc_seg_stable(vm, psa, sla, w.entry.child, segs[i as int], u);
                        lemma_fs_ext_trans(vm, vm2, v1);
                        lemma_fs_ext_trans(vm, v1, u);
                        lemma_resolve_symlinks_ext(vm, u, ps, sl, entry);
                    },
                }
            },
        }
    }
}

/// A successful creating walk, run again on its own output (or any
/// extension of it), resolves everything without creating and yields the
/// same entry.
pub proof fn lemma_roc_stable(
    vm: FsView,
    ps: nat,
    sl: nat,
    parent: nat,
    segs: Seq<Seq<u8>>,
    u: FsView,
)
    requires
        roc_spec(vm, ps, sl, parent, segs).1 is Ok,
        fs_ext(roc_spec(vm, ps, sl, parent, segs).0, u),
    ensures
        fs_ext(vm, roc_spec(vm, ps, sl, parent, segs).0),
        roc_spec(u, ps, sl, parent, segs) == (u, roc_spec(vm, ps, sl, parent, segs).1),
    decreases sl, 2nat, ps, 0nat,
{
    let (v1, res) = roc_spec(vm, ps, sl, parent, segs);
    if segs.len() == 0 {
        lemma_fs_ext_refl(vm);
    } else {
        let (vm2, step) = roc_seg_spec(vm, ps, sl, parent, segs[0]);
        match step {
            Err(_) => {},
            Ok(w) => {
                lemma_roc_cont_stable(vm2, w.ps, w.sl, w.entry, segs, 1, u);
                lemma_roc_seg_stable(vm, ps, sl, parent, segs[0], u);
                lemma_fs_ext_trans(vm, vm2, v1);
            },
        }
    }
}

/// Writing a directory's metadata twice with the same record leaves the
/// filesystem exactly as one write leaves it.
pub proof fn lemma_write_directory_metadata_idempotent(v: FsView, p: Seq<u8>, s: Stat)
    requires
        write_directory_metadata_spec(v, p, s).1 is Ok,
    ensures
        write_directory_metadata_spec(write_directory_metadata_spec(v, p, s).0, p, s) == (
            write_directory_metadata_spec(v, p, s).0,
            Ok::<(), VFSError>(()),
        ),
{
    let ps = PATH_SEGMENT_LIMIT as nat;
    let sl = SYMBOLIC_LINK_LIMIT as nat;
    let segs = split_path_spec(p);
    let (v1, rr) = roc_spec(v, ps, sl, 0, segs);
    let w = rr->Ok_0;
    let w2 = resolve_symlinks_spec(v1, w.ps, w.sl, w.entry)->Ok_0;
    let t = w2.entry.child as int;
    let n = node_at(v1, t as nat)->Ok_0;
    let sw = stat_with_nlink(s, n.stat.nlink);
    let vs = set_stat_spec(v1, t, sw);
    assert(write_directory_metadata_spec(v, p, s).0 == vs);

    // the state after one write extends the walked state without
    // touching any payload
    assert(fs_ext(v1, vs)) by {
        assert forall|i: int| 0 <= i < v1.len() && v1[i] is Some implies (#[trigger] vs[i])
            is Some && node_ext(v1[i]->Some_0, vs[i]->Some_0) by {
            assert(vs[i]->Some_0.node == v1[i]->Some_0.node);
            match v1[i]->Some_0.node {
                NodeView::Directory(d) => {
                    assert forall|k: int| 0 <= k < d.len() implies d[k] == d[k] by {}
                },
                _ => {},
            }
        }
    }
    lemma_roc_stable(v, ps, sl, 0, segs, vs);
    assert(roc_spec(vs, ps, sl, 0, segs) == (vs, rr));
    lemma_resolve_symlinks_ext(v1, vs, w.ps, w.sl, w.entry);
    assert(resolve_symlinks_spec(vs, w.ps, w.sl, w.entry) == Ok::<WalkOk, VFSError>(w2));
    assert(node_at(vs, t as nat) == Ok::<INodeView, VFSError>(
        INodeView { stat: sw, node: n.node },
    ));
    let sw2 = stat_with_nlink(s, sw.nlink);
    assert(sw2 == sw);
    assert(set_stat_spec(vs, t, sw2) =~= vs);
}

} // verus!

//! The namespace: every directory and regular file known to the naming
//! service, addressed by normalized path.
//!
//! The tree is stored as a flat table of entries, one per node, each keyed by
//! its full path. Its abstract value is a map from paths to nodes
//! ([`DirTree::ns`]); well-formedness ([`DirTree::wf`]) says that paths are
//! unique, that every node hangs under an existing directory, and that every
//! regular file has at least one owner.

use vstd::prelude::*;

use crate::error::TinyDfsError;
use crate::path::{seg_views, PathV};
use crate::server::StorageServer;

verus! {

/// The abstract value of one namespace node: a directory, or a regular file
/// with the storage nodes that hold a replica.
#[verifier::ext_equal]
pub struct NodeV {
    pub is_dir: bool,
    pub owners: Seq<StorageServer>,
}

/// A regular-file node, owned by the storage nodes that hold a replica of
/// it.
pub struct RegFile {
    /// The final path segment naming this file.
    pub name: String,
    /// The storage nodes currently holding a replica; non-empty.
    pub srvs: Vec<StorageServer>,
}

impl RegFile {
    /// A regular file named `name`, initially owned by `srv` alone.
    pub fn new(name: &str, srv: &StorageServer) -> (r: Self)
        ensures
            r.name@ == name@,
            r.srvs@ == seq![*srv],
    {
        let mut srvs: Vec<StorageServer> = Vec::new();
        srvs.push(srv.duplicate());
        proof {
            assert(srvs@ =~= seq![*srv]);
        }
        Self { srvs, name: name.to_owned() }
    }
}

/// A directory node. Its children are the entries of the tree whose path
/// extends this node's path by one segment.
pub struct Dir {
    /// The final path segment naming this directory.
    pub name: String,
}

impl Dir {
    pub fn new(name: &str) -> (r: Self)
        ensures
            r.name@ == name@,
    {
        Self { name: name.to_owned() }
    }
}

/// A namespace node.
pub enum File {
    RegFile(RegFile),
    Dir(Dir),
}

impl View for File {
    type V = NodeV;

    open spec fn view(&self) -> NodeV {
        match *self {
            File::RegFile(f) => NodeV { is_dir: false, owners: f.srvs@ },
            File::Dir(_) => NodeV { is_dir: true, owners: Seq::empty() },
        }
    }
}

impl File {
    /// The final path segment naming this node.
    pub open spec fn spec_name(self) -> Seq<char> {
        match self {
            File::RegFile(f) => f.name@,
            File::Dir(d) => d.name@,
        }
    }

    pub fn name(&self) -> (r: &str)
        ensures
            r@ == self.spec_name(),
    {
        match self {
            File::RegFile(f) => f.name.as_str(),
            File::Dir(d) => d.name.as_str(),
        }
    }

    pub fn is_dir(&self) -> (r: bool)
        ensures
            r == self@.is_dir,
    {
        match self {
            File::RegFile(_) => false,
            File::Dir(_) => true,
        }
    }

    /// The owner set of a regular file; `None` for a directory.
    pub fn servers(&self) -> (r: Option<&Vec<StorageServer>>)
        ensures
            match r {
                Some(v) => !self@.is_dir && v@ == self@.owners,
                None => self@.is_dir,
            },
    {
        match self {
            File::RegFile(f) => Some(&f.srvs),
            File::Dir(_) => None,
        }
    }
}

/// One node of the namespace together with its full path.
pub struct TreeEntry {
    pub path: Vec<String>,
    pub node: File,
}

impl TreeEntry {
    /// The normalized path of this entry.
    pub open spec fn path_v(self) -> PathV {
        seg_views(self.path@)
    }
}

/// No two entries share a path.
pub open spec fn paths_unique(entries: Seq<TreeEntry>) -> bool {
    forall|i: int, j: int|
        0 <= i < entries.len() && 0 <= j < entries.len() && #[trigger] entries[i].path_v()
            == #[trigger] entries[j].path_v() ==> i == j
}

/// The namespace tree.
pub struct DirTree {
    pub entries: Vec<TreeEntry>,
}

impl DirTree {
    /// Whether some entry has path `p`.
    pub open spec fn has_path(self, p: PathV) -> bool {
        exists|i: int| 0 <= i < self.entries@.len() && #[trigger] self.entries@[i].path_v() == p
    }

    /// The index of the entry with path `p`, when one exists.
    pub open spec fn idx_of(self, p: PathV) -> int {
        choose|i: int| 0 <= i < self.entries@.len() && #[trigger] self.entries@[i].path_v() == p
    }

    /// The abstract namespace: the map from each present path to its node.
    pub open spec fn ns(self) -> Map<PathV, NodeV> {
        Map::new(|p: PathV| self.has_path(p), |p: PathV| self.entries@[self.idx_of(p)].node@)
    }

    /// Well-formedness: paths are unique and non-empty, every node with more
    /// than one segment hangs under an entry that is a directory, every
    /// regular file has at least one owner, and every node is named by its
    /// final segment.
    pub open spec fn wf(self) -> bool {
        &&& paths_unique(self.entries@)
        &&& forall|i: int|
            0 <= i < self.entries@.len() ==> #[trigger] self.entries@[i].path_v().len() >= 1
        &&& forall|i: int|
            0 <= i < self.entries@.len() && (#[trigger] self.entries@[i].path_v().len()) > 1
                ==> exists|j: int|
                0 <= j < self.entries@.len() && #[trigger] self.entries@[j].path_v()
                    == self.entries@[i].path_v().drop_last() && self.entries@[j].node@.is_dir
        &&& forall|i: int|
            0 <= i < self.entries@.len() && !(#[trigger] self.entries@[i].node@.is_dir)
                ==> self.entries@[i].node@.owners.len() >= 1
        &&& forall|i: int|
            0 <= i < self.entries@.len() ==> #[trigger] self.entries@[i].node.spec_name()
                == self.entries@[i].path_v().last()
    }

    /// An empty namespace.
    pub fn new() -> (r: Self)
        ensures
            r.wf(),
            r.ns() == Map::<PathV, NodeV>::empty(),
    {
        let r = Self { entries: Vec::new() };
        proof {
            assert(r.ns() =~= Map::<PathV, NodeV>::empty());
        }
        r
    }
}

/// With unique paths, the entry at index `i` is exactly what the namespace
/// map records for its path.
pub proof fn lemma_entry_ns(t: DirTree, i: int)
    requires
        paths_unique(t.entries@),
        0 <= i < t.entries@.len(),
    ensures
        t.ns().dom().contains(t.entries@[i].path_v()),
        t.ns()[t.entries@[i].path_v()] == t.entries@[i].node@,
{
    let p = t.entries@[i].path_v();
    assert(t.has_path(p));
    let j = t.idx_of(p);
    assert(0 <= j < t.entries@.len() && t.entries@[j].path_v() == p);
    assert(j == i);
}

/// Appending an entry with a fresh path adds exactly that path to the
/// namespace map.
pub proof fn lemma_ns_push(t1: DirTree, t2: DirTree, e: TreeEntry)
    requires
        paths_unique(t1.entries@),
        !t1.has_path(e.path_v()),
        t2.entries@ == t1.entries@.push(e),
    ensures
        paths_unique(t2.entries@),
        t2.ns() == t1.ns().insert(e.path_v(), e.node@),
{
    let n = t1.entries@.len() as int;
    assert forall|i: int, j: int|
        0 <= i < t2.entries@.len() && 0 <= j < t2.entries@.len() && #[trigger] t2.entries@[i].path_v()
            == #[trigger] t2.entries@[j].path_v() implies i == j by {
        if i < n && j < n {
            assert(t1.entries@[i].path_v() == t1.entries@[j].path_v());
        } else if i < n && j == n {
            assert(t1.has_path(e.path_v()));
        } else if i == n && j < n {
            assert(t1.has_path(e.path_v()));
        }
    }
    let m1 = t1.ns().insert(e.path_v(), e.node@);
    let m2 = t2.ns();
    assert forall|p: PathV| m1.dom().contains(p) implies m2.dom().contains(p) by {
        if p == e.path_v() {
            assert(t2.entries@[n].path_v() == p);
        } else {
            let i = t1.idx_of(p);
            assert(t2.entries@[i].path_v() == p);
        }
    }
    assert forall|p: PathV| m2.dom().contains(p) implies m1.dom().contains(p) && m2[p] == m1[p] by {
        let i = t2.idx_of(p);
        assert(0 <= i < t2.entries@.len() && t2.entries@[i].path_v() == p);
        if i == n {
            assert(p == e.path_v());
            lemma_entry_ns(t2, n);
        } else {
            assert(t1.entries@[i].path_v() == p);
            assert(t1.has_path(p));
            lemma_entry_ns(t1, i);
            lemma_entry_ns(t2, i);
            assert(p != e.path_v());
        }
    }
    assert(m2 =~= m1);
}

/// Removing the entry at index `j` removes exactly its path from the
/// namespace map.
pub proof fn lemma_ns_remove(t1: DirTree, t2: DirTree, j: int)
    requires
        paths_unique(t1.entries@),
        0 <= j < t1.entries@.len(),
        t2.entries@ == t1.entries@.remove(j),
    ensures
        paths_unique(t2.entries@),
        t2.ns() == t1.ns().remove(t1.entries@[j].path_v()),
{
    let n = t1.entries@.len() as int;
    let pr = t1.entries@[j].path_v();
    assert forall|a: int, b: int|
        0 <= a < t2.entries@.len() && 0 <= b < t2.entries@.len() && #[trigger] t2.entries@[a].path_v()
            == #[trigger] t2.entries@[b].path_v() implies a == b by {
        let a1 = if a < j { a } else { a + 1 };
        let b1 = if b < j { b } else { b + 1 };
        assert(t2.entries@[a] == t1.entries@[a1]);
        assert(t2.entries@[b] == t1.entries@[b1]);
        assert(t1.entries@[a1].path_v() == t1.entries@[b1].path_v());
    }
    let m1 = t1.ns().remove(pr);
    let m2 = t2.ns();
    assert forall|p: PathV| m1.dom().contains(p) implies m2.dom().contains(p) by {
        let i = t1.idx_of(p);
        assert(0 <= i < n && t1.entries@[i].path_v() == p);
        assert(i != j);
        let i2 = if i < j { i } else { i - 1 };
        assert(t2.entries@[i2] == t1.entries@[i]);
        assert(t2.entries@[i2].path_v() == p);
    }
    assert forall|p: PathV| m2.dom().contains(p) implies m1.dom().contains(p) && m2[p] == m1[p] by {
        let i2 = t2.idx_of(p);
        assert(0 <= i2 < t2.entries@.len() && t2.entries@[i2].path_v() == p);
        let i1 = if i2 < j { i2 } else { i2 + 1 };
        assert(t2.entries@[i2] == t1.entries@[i1]);
        assert(t1.entries@[i1].path_v() == p);
        assert(i1 != j ==> p != pr);
        assert(i1 != j);
        assert(t1.has_path(p));
        lemma_entry_ns(t1, i1);
        lemma_entry_ns(t2, i2);
    }
    assert(m2 =~= m1);
}

/// The abstract node of a fresh regular file owned by `srv` alone.
pub open spec fn node_file(srv: StorageServer) -> NodeV {
    NodeV { is_dir: false, owners: seq![srv] }
}

/// The abstract node of a fresh, empty directory.
pub open spec fn node_dir() -> NodeV {
    NodeV { is_dir: true, owners: Seq::empty() }
}

/// The abstract node that a create call asks for.
pub open spec fn requested_node(is_dir: bool, srv: Option<&StorageServer>) -> NodeV {
    if is_dir {
        node_dir()
    } else {
        node_file(*srv->Some_0)
    }
}

/// Whether the walk to `p` can insert its final segment: every proper prefix
/// already present must be a directory, and an absent prefix is tolerated
/// only when intermediates are auto-created.
pub open spec fn can_create(m: Map<PathV, NodeV>, p: PathV, auto: bool) -> bool {
    forall|k: int|
        1 <= k < p.len() ==> {
            if m.dom().contains(#[trigger] p.take(k)) {
                m[p.take(k)].is_dir
            } else {
                auto
            }
        }
}

/// `m` with an empty directory at every absent proper prefix of `p` shorter
/// than `k` segments.
pub open spec fn add_inter_upto(m: Map<PathV, NodeV>, p: PathV, k: int) -> Map<PathV, NodeV> {
    Map::new(
        |q: PathV|
            m.dom().contains(q) || (1 <= q.len() < k && q.len() < p.len() && q == p.take(
                q.len() as int,
            )),
        |q: PathV|
            if m.dom().contains(q) {
                m[q]
            } else {
                node_dir()
            },
    )
}

/// `m` with an empty directory at every absent proper prefix of `p`: the
/// intermediate directories that an auto-creating insert adds.
pub open spec fn add_intermediates(m: Map<PathV, NodeV>, p: PathV) -> Map<PathV, NodeV> {
    add_inter_upto(m, p, p.len() as int)
}

/// The namespace after inserting `node` at `p`, intermediates included.
pub open spec fn create_map(m: Map<PathV, NodeV>, p: PathV, node: NodeV) -> Map<PathV, NodeV> {
    add_intermediates(m, p).insert(p, node)
}

/// The namespace after one create call, and its result: an occupied target
/// fails with `FileExists`, a walk that cannot descend fails with
/// `DirNotFound`, and either failure leaves the namespace unchanged.
pub open spec fn create_outcome(m: Map<PathV, NodeV>, p: PathV, node: NodeV, auto: bool) -> (Map<
    PathV,
    NodeV,
>, Result<(), TinyDfsError>) {
    if p.len() == 0 {
        (m, Err(TinyDfsError::PathInvalid))
    } else if m.dom().contains(p) {
        (m, Err(TinyDfsError::FileExists))
    } else if !can_create(m, p, auto) {
        (m, Err(TinyDfsError::DirNotFound))
    } else {
        (create_map(m, p, node), Ok(()))
    }
}

/// The namespace after one delete call, and the removed node: only a regular
/// file can be removed; directory deletion is unsupported and reports
/// `PathInvalid`.
pub open spec fn delete_outcome(m: Map<PathV, NodeV>, p: PathV) -> (Map<PathV, NodeV>, Result<
    NodeV,
    TinyDfsError,
>) {
    if p.len() == 0 {
        (m, Err(TinyDfsError::PathInvalid))
    } else if m.dom().contains(p) {
        if m[p].is_dir {
            (m, Err(TinyDfsError::PathInvalid))
        } else {
            (m.remove(p), Ok(m[p]))
        }
    } else if parent_resolves(m, p) {
        (m, Err(TinyDfsError::FileNotFound))
    } else {
        (m, Err(TinyDfsError::DirNotFound))
    }
}

/// The names of the children of the node at `p`: the final segments of the
/// present paths one segment longer than `p`.
pub open spec fn child_names(m: Map<PathV, NodeV>, p: PathV) -> Set<Seq<char>> {
    Set::new(|s: Seq<char>| m.dom().contains(p.push(s)))
}

/// The result of listing `p`: the names of its children when `p` resolves to
/// a directory; `FileNotFound` when the final segment is absent, and
/// `PathInvalid` when the walk cannot descend or the target is no directory.
pub open spec fn list_outcome(m: Map<PathV, NodeV>, p: PathV) -> Result<
    Set<Seq<char>>,
    TinyDfsError,
> {
    if p.len() == 0 {
        Err(TinyDfsError::PathInvalid)
    } else if m.dom().contains(p) {
        if m[p].is_dir {
            Ok(child_names(m, p))
        } else {
            Err(TinyDfsError::PathInvalid)
        }
    } else if parent_resolves(m, p) {
        Err(TinyDfsError::FileNotFound)
    } else {
        Err(TinyDfsError::PathInvalid)
    }
}

/// Pushing an entry whose parent is already present as a directory keeps the
/// tree well-formed.
pub proof fn lemma_wf_push(t1: DirTree, t2: DirTree, e: TreeEntry)
    requires
        t1.wf(),
        t2.entries@ == t1.entries@.push(e),
        !t1.has_path(e.path_v()),
        e.path_v().len() >= 1,
        e.path_v().len() > 1 ==> t1.has_path(e.path_v().drop_last()) && t1.ns()[e.path_v().drop_last()].is_dir,
        !e.node@.is_dir ==> e.node@.owners.len() >= 1,
        e.node.spec_name() == e.path_v().last(),
    ensures
        t2.wf(),
{
    lemma_ns_push(t1, t2, e);
    let n = t1.entries@.len() as int;
    assert forall|i: int| 0 <= i < t2.entries@.len() implies #[trigger] t2.entries@[i].path_v().len()
        >= 1 by {
        if i < n {
            assert(t2.entries@[i] == t1.entries@[i]);
        } else {
            assert(t2.entries@[i] == e);
        }
    }
    assert forall|i: int|
        0 <= i < t2.entries@.len() && (#[trigger] t2.entries@[i].path_v().len()) > 1 implies exists|
        j: int,
    |
        0 <= j < t2.entries@.len() && #[trigger] t2.entries@[j].path_v() == t2.entries@[
            i
        ].path_v().drop_last() && t2.entries@[j].node@.is_dir by {
        if i < n {
            assert(t2.entries@[i] == t1.entries@[i]);
            let j = choose|j: int|
                0 <= j < t1.entries@.len() && #[trigger] t1.entries@[j].path_v() == t1.entries@[
                    i
                ].path_v().drop_last() && t1.entries@[j].node@.is_dir;
            assert(t2.entries@[j] == t1.entries@[j]);
            assert(t2.entries@[j].path_v() == t2.entries@[i].path_v().drop_last()
                && t2.entries@[j].node@.is_dir);
        } else {
            assert(t2.entries@[i] == e);
            let p = e.path_v().drop_last();
            let j = t1.idx_of(p);
            assert(0 <= j < n && t1.entries@[j].path_v() == p);
            lemma_entry_ns(t1, j);
            assert(t2.entries@[j] == t1.entries@[j]);
            assert(t2.entries@[j].path_v() == t2.entries@[i].path_v().drop_last()
                && t2.entries@[j].node@.is_dir);
        }
    }
    assert forall|i: int|
        0 <= i < t2.entries@.len() && !(#[trigger] t2.entries@[i].node@.is_dir) implies t2.entries@[
        i
    ].node@.owners.len() >= 1 by {
        if i < n {
            assert(t2.entries@[i] == t1.entries@[i]);
        } else {
            assert(t2.entries@[i] == e);
        }
    }
    assert forall|i: int| 0 <= i < t2.entries@.len() implies #[trigger] t2.entries@[
        i
    ].node.spec_name() == t2.entries@[i].path_v().last() by {
        if i < n {
            assert(t2.entries@[i] == t1.entries@[i]);
        } else {
            assert(t2.entries@[i] == e);
        }
    }
}

/// Removing a regular-file entry keeps the tree well-formed.
pub proof fn lemma_wf_remove(t1: DirTree, t2: DirTree, r: int)
    requires
        t1.wf(),
        0 <= r < t1.entries@.len(),
        !t1.entries@[r].node@.is_dir,
        t2.entries@ == t1.entries@.remove(r),
    ensures
        t2.wf(),
{
    lemma_ns_remove(t1, t2, r);
    assert forall|i: int| 0 <= i < t2.entries@.len() implies #[trigger] t2.entries@[i].path_v().len()
        >= 1 && (!(t2.entries@[i].node@.is_dir) ==> t2.entries@[i].node@.owners.len() >= 1) && (
    t2.entries@[i].node.spec_name() == t2.entries@[i].path_v().last()) by {
        let i1 = if i < r {
            i
        } else {
            i + 1
        };
        assert(t2.entries@[i] == t1.entries@[i1]);
    }
    assert forall|i: int|
        0 <= i < t2.entries@.len() && (#[trigger] t2.entries@[i].path_v().len()) > 1 implies exists|
        j: int,
    |
        0 <= j < t2.entries@.len() && #[trigger] t2.entries@[j].path_v() == t2.entries@[
            i
        ].path_v().drop_last() && t2.entries@[j].node@.is_dir by {
        let i1 = if i < r {
            i
        } else {
            i + 1
        };
        assert(t2.entries@[i] == t1.entries@[i1]);
        let j1 = choose|j: int|
            0 <= j < t1.entries@.len() && #[trigger] t1.entries@[j].path_v() == t1.entries@[
                i1
            ].path_v().drop_last() && t1.entries@[j].node@.is_dir;
        assert(j1 != r);
        let j2 = if j1 < r {
            j1
        } else {
            j1 - 1
        };
        assert(t2.entries@[j2] == t1.entries@[j1]);
        assert(t2.entries@[j2].path_v() == t2.entries@[i].path_v().drop_last() && t2.entries@[
            j2
        ].node@.is_dir);
    }
}

/// Whether two segment lists denote the same normalized path.
pub fn segs_match(a: &Vec<String>, b: &Vec<String>) -> (r: bool)
    ensures
        r == (seg_views(a@) == seg_views(b@)),
{
    if a.len() != b.len() {
        proof {
            assert(seg_views(a@).len() != seg_views(b@).len());
        }
        return false;
    }
    let n = a.len();
    let mut i: usize = 0;
    while i < n
        invariant
            i <= n,
            n == a@.len() == b@.len(),
            forall|k: int| 0 <= k < i ==> #[trigger] a@[k]@ == b@[k]@,
        decreases n - i,
    {
        if !(a[i] == b[i]) {
            proof {
                assert(seg_views(a@)[i as int] == a@[i as int]@);
                assert(seg_views(b@)[i as int] == b@[i as int]@);
            }
            return false;
        }
        i = i + 1;
    }
    proof {
        assert(seg_views(a@) =~= seg_views(b@));
    }
    true
}

/// An owned copy of the first `k` segments of `path`.
pub fn path_prefix(path: &Vec<String>, k: usize) -> (r: Vec<String>)
    requires
        k <= path@.len(),
    ensures
        seg_views(r@) == seg_views(path@).take(k as int),
{
    let mut r: Vec<String> = Vec::new();
    let mut i: usize = 0;
    while i < k
        invariant
            i <= k <= path@.len(),
            r@.len() == i,
            forall|j: int| 0 <= j < i ==> #[trigger] r@[j]@ == path@[j]@,
        decreases k - i,
    {
        r.push(path[i].clone());
        i = i + 1;
    }
    proof {
        assert(seg_views(r@) =~= seg_views(path@).take(k as int));
    }
    r
}

/// Whether the walk to `p` can descend to its final segment: every proper
/// prefix of `p` must resolve, and to a directory. A path with a single
/// segment hangs directly under the root; the empty path does not resolve.
pub open spec fn parent_resolves(m: Map<PathV, NodeV>, p: PathV) -> bool {
    if p.len() == 0 {
        false
    } else if p.len() == 1 {
        true
    } else {
        m.dom().contains(p.drop_last()) && m[p.drop_last()].is_dir
    }
}

impl DirTree {
    /// The index of the entry with the given path, when one exists.
    fn find(&self, path: &Vec<String>) -> (r: Option<usize>)
        ensures
            match r {
                Some(j) => j < self.entries@.len() && self.entries@[j as int].path_v() == seg_views(
                    path@,
                ),
                None => !self.has_path(seg_views(path@)),
            },
    {
        let n = self.entries.len();
        let mut i: usize = 0;
        while i < n
            invariant
                i <= n,
                n == self.entries@.len(),
                forall|k: int|
                    0 <= k < i ==> #[trigger] self.entries@[k].path_v() != seg_views(path@),
            decreases n - i,
        {
            if segs_match(&self.entries[i].path, path) {
                return Some(i);
            }
            i = i + 1;
        }
        None
    }

    /// Walks `path` from the root. Returns whether every intermediate
    /// segment resolves to a directory, and the index of the target entry
    /// when the final segment resolves; target presence without a resolvable
    /// parent cannot happen in a well-formed tree.
    pub fn lookup(&self, path: &Vec<String>) -> (r: (bool, Option<usize>))
        requires
            self.wf(),
        ensures
            r.0 == parent_resolves(self.ns(), seg_views(path@)),
            r.1 is Some <==> self.ns().dom().contains(seg_views(path@)),
            r.1 matches Some(j) ==> j < self.entries@.len() && self.entries@[j as int].path_v()
                == seg_views(path@) && self.ns()[seg_views(path@)] == self.entries@[
                j as int
            ].node@,
    {
        let ghost pv = seg_views(path@);
        let target = self.find(path);
        proof {
            match target {
                Some(j) => lemma_entry_ns(*self, j as int),
                None => (),
            }
        }
        let parent_found: bool;
        if path.len() == 0 {
            parent_found = false;
        } else if path.len() == 1 {
            parent_found = true;
        } else {
            let prefix = path_prefix(path, path.len() - 1);
            proof {
                assert(pv.drop_last() =~= pv.take(pv.len() - 1));
            }
            match self.find(&prefix) {
                Some(j) => {
                    proof {
                        lemma_entry_ns(*self, j as int);
                    }
                    let e = &self.entries[j];
                    parent_found = e.node.is_dir();
                },
                None => {
                    parent_found = false;
                },
            }
        }
        (parent_found, target)
    }

    /// Inserts a node at `path`: a directory when `is_dir` is set, else a
    /// regular file owned by `srv`. When `create_inter` is set, every missing
    /// intermediate directory is created along the way; otherwise a missing
    /// intermediate fails the call. Failure leaves the namespace unchanged.
    pub fn create_file(
        &mut self,
        path: &Vec<String>,
        is_dir: bool,
        srv: Option<&StorageServer>,
        create_inter: bool,
    ) -> (r: Result<(), TinyDfsError>)
        requires
            old(self).wf(),
            !is_dir ==> srv is Some,
        ensures
            final (self).wf(),
            (final (self).ns(), r) == create_outcome(
                old(self).ns(),
                seg_views(path@),
                requested_node(is_dir, srv),
                create_inter,
            ),
    {
        let ghost pv = seg_views(path@);
        let ghost m0 = self.ns();
        let ghost node = requested_node(is_dir, srv);
        let n = path.len();
        if n == 0 {
            return Err(TinyDfsError::PathInvalid);
        }
        match self.find(path) {
            Some(j) => {
                proof {
                    lemma_entry_ns(*self, j as int);
                }
                return Err(TinyDfsError::FileExists);
            },
            None => {},
        }
        proof {
            assert(!m0.dom().contains(pv));
        }
        // Walk the proper prefixes once to decide whether the insert can
        // descend at all; nothing is mutated until the walk is known good.
        let mut k: usize = 1;
        while k < n
            invariant
                1 <= k <= n,
                n == path@.len(),
                pv == seg_views(path@),
                *self == *old(self),
                m0 == self.ns(),
                self.wf(),
                !m0.dom().contains(pv),
                forall|k2: int|
                    1 <= k2 < k ==> {
                        if m0.dom().contains(#[trigger] pv.take(k2)) {
                            m0[pv.take(k2)].is_dir
                        } else {
                            create_inter
                        }
                    },
            decreases n - k,
        {
            let prefix = path_prefix(path, k);
            match self.find(&prefix) {
                Some(j) => {
                    proof {
                        lemma_entry_ns(*self, j as int);
                    }
                    let e = &self.entries[j];
                    if !e.node.is_dir() {
                        proof {
                            assert(m0.dom().contains(pv.take(k as int)) && !m0[pv.take(
                                k as int,
                            )].is_dir);
                            assert(!can_create(m0, pv, create_inter));
                        }
                        return Err(TinyDfsError::DirNotFound);
                    }
                },
                None => {
                    if !create_inter {
                        proof {
                            assert(!m0.dom().contains(pv.take(k as int)));
                            assert(!can_create(m0, pv, create_inter));
                        }
                        return Err(TinyDfsError::DirNotFound);
                    }
                },
            }
            k = k + 1;
        }
        proof {
            assert(can_create(m0, pv, create_inter));
            assert(self.ns() =~= add_inter_upto(m0, pv, 1));
        }
        // The walk can descend: create the missing intermediates in order,
        // shortest prefix first, then the target itself.
        let mut k: usize = 1;
        while k < n
            invariant
                1 <= k <= n,
                n == path@.len(),
                pv == seg_views(path@),
                self.wf(),
                self.ns() == add_inter_upto(m0, pv, k as int),
                !m0.dom().contains(pv),
                can_create(m0, pv, create_inter),
                forall|k2: int|
                    1 <= k2 < k ==> self.ns().dom().contains(#[trigger] pv.take(k2)) && self.ns()[
                        pv.take(k2)
                    ].is_dir,
            decreases n - k,
        {
            let ghost mk = self.ns();
            let prefix = path_prefix(path, k);
            match self.find(&prefix) {
                Some(j) => {
                    proof {
                        lemma_entry_ns(*self, j as int);
                        assert(mk.dom().contains(pv.take(k as int)));
                        assert(m0.dom().contains(pv.take(k as int)));
                        assert(mk[pv.take(k as int)].is_dir);
                        assert(self.ns() =~= add_inter_upto(m0, pv, k as int + 1));
                    }
                },
                None => {
                    let name = path[k - 1].clone();
                    let entry = TreeEntry { path: prefix, node: File::Dir(Dir { name }) };
                    let ghost t1 = *self;
                    proof {
                        assert(pv.take(k as int).len() == k as int);
                        assert(!mk.dom().contains(pv.take(k as int)));
                        assert(!m0.dom().contains(pv.take(k as int)));
                        if k > 1 {
                            assert(mk.dom().contains(pv.take(k as int - 1)));
                            assert(t1.has_path(pv.take(k as int - 1)));
                        }
                        assert(entry.path_v() == pv.take(k as int));
                        assert(entry.node@ == node_dir());
                        assert(entry.node.spec_name() == pv[k - 1]);
                        assert(pv[k - 1] == pv.take(k as int).last());
                        if k > 1 {
                            assert(pv.take(k as int).drop_last() =~= pv.take(k as int - 1));
                        }
                    }
                    self.entries.push(entry);
                    proof {
                        lemma_ns_push(t1, *self, entry);
                        lemma_wf_push(t1, *self, entry);
                        assert(self.ns() =~= add_inter_upto(m0, pv, k as int + 1));
                    }
                },
            }
            k = k + 1;
        }
        let prefix = path_prefix(path, n);
        proof {
            assert(seg_views(prefix@) =~= pv);
        }
        let name = path[n - 1].clone();
        let node_exec = if is_dir {
            File::Dir(Dir { name })
        } else {
            File::RegFile(RegFile::new(name.as_str(), srv.unwrap()))
        };
        let entry = TreeEntry { path: prefix, node: node_exec };
        let ghost t1 = *self;
        proof {
            assert(entry.path_v() == pv);
            assert(entry.node@ == node);
            assert(entry.node.spec_name() == pv[n - 1]);
            assert(pv[n - 1] == pv.last());
            if n > 1 {
                assert(pv.drop_last() =~= pv.take(n as int - 1));
                assert(t1.ns().dom().contains(pv.take(n as int - 1)));
                assert(t1.has_path(pv.drop_last()));
            }
            assert(!add_inter_upto(m0, pv, n as int).dom().contains(pv));
            assert(!t1.ns().dom().contains(pv));
            assert(!t1.has_path(pv));
        }
        self.entries.push(entry);
        proof {
            lemma_ns_push(t1, *self, entry);
            lemma_wf_push(t1, *self, entry);
            assert(add_inter_upto(m0, pv, n as int) =~= add_intermediates(m0, pv));
        }
        Ok(())
    }

    /// Removes the regular file at `path` from its parent and returns it, so
    /// that the caller can still read its owner set. Directory deletion is
    /// unsupported and reports `PathInvalid`; failure leaves the namespace
    /// unchanged.
    pub fn delete_file(&mut self, path: &Vec<String>) -> (r: Result<RegFile, TinyDfsError>)
        requires
            old(self).wf(),
        ensures
            final (self).wf(),
            final (self).ns() == delete_outcome(old(self).ns(), seg_views(path@)).0,
            r is Ok <==> delete_outcome(old(self).ns(), seg_views(path@)).1 is Ok,
            r matches Ok(f) ==> delete_outcome(old(self).ns(), seg_views(path@)).1 == Ok::<
                NodeV,
                TinyDfsError,
            >(NodeV { is_dir: false, owners: f.srvs@ }) && f.name@ == seg_views(path@).last(),
            r matches Err(e) ==> delete_outcome(old(self).ns(), seg_views(path@)).1 == Err::<
                NodeV,
                TinyDfsError,
            >(e),
    {
        let ghost pv = seg_views(path@);
        if path.len() == 0 {
            return Err(TinyDfsError::PathInvalid);
        }
        let (parent_found, target) = self.lookup(path);
        match target {
            Some(j) => {
                let e = &self.entries[j];
                if e.node.is_dir() {
                    return Err(TinyDfsError::PathInvalid);
                }
                let ghost t1 = *self;
                proof {
                    assert(t1.entries@[j as int].path_v().len() >= 1);
                    assert(t1.entries@[j as int].node.spec_name() == t1.entries@[
                        j as int
                    ].path_v().last());
                }
                let entry = self.entries.remove(j);
                proof {
                    lemma_ns_remove(t1, *self, j as int);
                    lemma_wf_remove(t1, *self, j as int);
                }
                match entry.node {
                    File::RegFile(f) => Ok(f),
                    File::Dir(_) => {
                        proof {
                            assert(false);
                        }
                        Err(TinyDfsError::PathInvalid)
                    },
                }
            },
            None => {
                if parent_found {
                    Err(TinyDfsError::FileNotFound)
                } else {
                    Err(TinyDfsError::DirNotFound)
                }
            },
        }
    }

    /// Lists the names of the children of the directory at `path`: a
    /// snapshot, each child name once, in table order.
    pub fn list(&self, path: &Vec<String>) -> (r: Result<Vec<String>, TinyDfsError>)
        requires
            self.wf(),
        ensures
            r is Ok <==> list_outcome(self.ns(), seg_views(path@)) is Ok,
            r matches Err(e) ==> list_outcome(self.ns(), seg_views(path@)) == Err::<
                Set<Seq<char>>,
                TinyDfsError,
            >(e),
            r matches Ok(names) ==> seg_views(names@).to_set() == list_outcome(
                self.ns(),
                seg_views(path@),
            )->Ok_0 && (forall|a: int, b: int|
                0 <= a < b < names@.len() ==> names@[a]@ != names@[b]@),
    {
        let ghost pv = seg_views(path@);
        if path.len() == 0 {
            return Err(TinyDfsError::PathInvalid);
        }
        let (parent_found, target) = self.lookup(path);
        match target {
            None => {
                if parent_found {
                    return Err(TinyDfsError::FileNotFound);
                } else {
                    return Err(TinyDfsError::PathInvalid);
                }
            },
            Some(j) => {
                let e = &self.entries[j];
                if !e.node.is_dir() {
                    return Err(TinyDfsError::PathInvalid);
                }
            },
        }
        let mut names: Vec<String> = Vec::new();
        let n = self.entries.len();
        let mut i: usize = 0;
        while i < n
            invariant
                i <= n,
                n == self.entries@.len(),
                self.wf(),
                pv == seg_views(path@),
                forall|a: int|
                    0 <= a < names@.len() ==> exists|b: int|
                        0 <= b < i && #[trigger] self.entries@[b].path_v() == pv.push(
                            #[trigger] names@[a]@,
                        ),
                forall|b: int|
                    0 <= b < i && (#[trigger] self.entries@[b].path_v()).len() == pv.len() + 1
                        && self.entries@[b].path_v().take(pv.len() as int) == pv ==> exists|a: int|
                        0 <= a < names@.len() && #[trigger] names@[a]@ == self.entries@[
                            b
                        ].path_v().last(),
                forall|a: int, b: int| 0 <= a < b < names@.len() ==> names@[a]@ != names@[b]@,
            decreases n - i,
        {
            let e = &self.entries[i];
            let ghost q = self.entries@[i as int].path_v();
            proof {
                assert(q.len() == e.path@.len());
            }
            if e.path.len() > path.len() && e.path.len() - 1 == path.len() {
                let p2 = path_prefix(&e.path, path.len());
                if segs_match(&p2, path) {
                    proof {
                        assert(q.take(pv.len() as int) == pv);
                        assert(q =~= pv.push(q.last()));
                    }
                    let name = e.path[e.path.len() - 1].clone();
                    proof {
                        assert(name@ == q.last());
                    }
                    // A second child with this name would be a second entry
                    // with the same path.
                    assert forall|a: int| 0 <= a < names@.len() implies names@[a]@ != name@ by {
                        if names@[a]@ == name@ {
                            let b = choose|b: int|
                                0 <= b < i && #[trigger] self.entries@[b].path_v() == pv.push(
                                    names@[a]@,
                                );
                            assert(self.entries@[b].path_v() == self.entries@[i as int].path_v());
                        }
                    }
                    let ghost names0 = names@;
                    names.push(name);
                    proof {
                        assert forall|b: int|
                            0 <= b < i + 1 && (#[trigger] self.entries@[b].path_v()).len()
                                == pv.len() + 1 && self.entries@[b].path_v().take(pv.len() as int)
                                == pv implies exists|a: int|
                            0 <= a < names@.len() && #[trigger] names@[a]@ == self.entries@[
                                b
                            ].path_v().last() by {
                            if b < i {
                                let a = choose|a: int|
                                    0 <= a < names0.len() && #[trigger] names0[a]@
                                        == self.entries@[b].path_v().last();
                                assert(names@[a]@ == self.entries@[b].path_v().last());
                            } else {
                                assert(names@[names@.len() - 1]@ == self.entries@[
                                    b
                                ].path_v().last());
                            }
                        }
                        assert forall|a: int| 0 <= a < names@.len() implies exists|b: int|
                            0 <= b < i + 1 && #[trigger] self.entries@[b].path_v() == pv.push(
                                #[trigger] names@[a]@,
                            ) by {
                            if a < names@.len() - 1 {
                                let b = choose|b: int|
                                    0 <= b < i && #[trigger] self.entries@[b].path_v() == pv.push(
                                        names@[a]@,
                                    );
                                assert(0 <= b < i + 1 && self.entries@[b].path_v() == pv.push(
                                    names@[a]@,
                                ));
                            } else {
                                assert(self.entries@[i as int].path_v() == pv.push(names@[a]@));
                            }
                        }
                        assert(names@[names@.len() - 1]@ == q.last());
                    }
                } else {
                    proof {
                        assert(q.take(pv.len() as int) != pv);
                    }
                }
            } else {
                proof {
                    assert(q.len() != pv.len() + 1);
                }
            }
            i = i + 1;
        }
        proof {
            let s = child_names(self.ns(), pv);
            assert forall|x: Seq<char>| s.contains(x) implies seg_views(names@).to_set().contains(
                x,
            ) by {
                assert(self.has_path(pv.push(x)));
                let b = self.idx_of(pv.push(x));
                assert(self.entries@[b].path_v() == pv.push(x));
                assert(self.entries@[b].path_v().len() == pv.len() + 1);
                assert(self.entries@[b].path_v().take(pv.len() as int) =~= pv);
                let a = choose|a: int|
                    0 <= a < names@.len() && #[trigger] names@[a]@ == self.entries@[
                        b
                    ].path_v().last();
                assert(seg_views(names@)[a] == x);
                assert(seg_views(names@).contains(x));
            }
            assert forall|x: Seq<char>| seg_views(names@).to_set().contains(x) implies s.contains(
                x,
            ) by {
                let a = choose|a: int|
                    0 <= a < seg_views(names@).len() && seg_views(names@)[a] == x;
                assert(names@[a]@ == x);
                let b = choose|b: int|
                    0 <= b < n && #[trigger] self.entries@[b].path_v() == pv.push(names@[a]@);
                assert(self.has_path(pv.push(x)));
                assert(self.ns().dom().contains(pv.push(x)));
            }
            assert(seg_views(names@).to_set() =~= s);
        }
        Ok(names)
    }
}

} // verus!

//! The system-wide guarantees, each proved once over the abstract
//! transitions that the executable operations are specified against.

use vstd::prelude::*;

use crate::dir_tree::{
    add_intermediates, create_outcome, delete_outcome, node_file, DirTree, NodeV,
};
use crate::error::TinyDfsError;
use crate::path::{spec_segments_of, PathV};
use crate::registration::spec_reconcile;
use crate::server::{has_addr, spec_register, StorageServer};

verus! {

/// Law: a path resolves to at most one node. Two entries of a well-formed
/// tree with the same path are one and the same entry, so after any sequence
/// of operations — each of which preserves well-formedness — every path has
/// at most one resolution.
pub proof fn lemma_path_resolves_uniquely(t: DirTree, i: int, j: int)
    requires
        t.wf(),
        0 <= i < t.entries@.len(),
        0 <= j < t.entries@.len(),
        t.entries@[i].path_v() == t.entries@[j].path_v(),
    ensures
        i == j,
{
}

/// Law: creating a node at `p` and then deleting `p` returns the namespace
/// to its previous state, except that auto-created intermediate directories
/// persist, and afterwards `p` resolves to nothing.
pub proof fn lemma_create_delete_round_trip(m: Map<PathV, NodeV>, p: PathV, node: NodeV, auto: bool)
    requires
        create_outcome(m, p, node, auto).1 is Ok,
        !node.is_dir,
    ensures
        ({
            let m1 = create_outcome(m, p, node, auto).0;
            let out = delete_outcome(m1, p);
            &&& out.1 == Ok::<NodeV, TinyDfsError>(node)
            &&& out.0 == add_intermediates(m, p)
            &&& !out.0.dom().contains(p)
        }),
{
    let ai = add_intermediates(m, p);
    let m1 = create_outcome(m, p, node, auto).0;
    assert(!ai.dom().contains(p));
    assert(m1 == ai.insert(p, node));
    assert(m1.remove(p) =~= ai);
}

/// Law: registering a second identity whose address is already registered is
/// rejected, and the registry — its size included — is unchanged by the
/// rejected call.
pub proof fn lemma_duplicate_registration_rejected(
    servers: Seq<StorageServer>,
    a: StorageServer,
    b: StorageServer,
)
    requires
        spec_register(servers, a).1,
        b.ip@ == a.ip@,
    ensures
        ({
            let s1 = spec_register(servers, a).0;
            let out = spec_register(s1, b);
            &&& !out.1
            &&& out.0 == s1
            &&& out.0.len() == s1.len()
        }),
{
    let s1 = spec_register(servers, a).0;
    assert(s1[s1.len() - 1].ip@ == b.ip@);
    assert(has_addr(s1, b.ip@));
}

/// Law: when a second storage node reports a path that a first registrant
/// already brought into the namespace, reconciling the second node returns
/// that path in its duplicate list, changes the namespace not at all, and
/// the namespace keeps the first registrant as the file's only owner.
pub proof fn lemma_dedup_convergence(
    m: Map<PathV, NodeV>,
    f: Seq<char>,
    x: StorageServer,
    y: StorageServer,
)
    requires
        spec_reconcile(m, seq![f], x).2 is Ok,
        !m.dom().contains(spec_segments_of(f)),
    ensures
        ({
            let p = spec_segments_of(f);
            let m1 = spec_reconcile(m, seq![f], x).0;
            let rec_y = spec_reconcile(m1, seq![f], y);
            &&& m1.dom().contains(p) && m1[p].owners == seq![x]
            &&& rec_y.0 == m1
            &&& rec_y.1 == seq![f]
            &&& rec_y.2 is Ok
            &&& rec_y.0[p].owners == seq![x]
        }),
{
    let p = spec_segments_of(f);
    let files = seq![f];
    assert(files[0] == f);
    assert(files.skip(1) =~= Seq::<Seq<char>>::empty());
    let c = create_outcome(m, p, node_file(x), true);
    assert(c.1 is Ok);
    let m1 = c.0;
    assert(m1[p] == node_file(x));
    let none: Seq<Seq<char>> = Seq::empty();
    assert(files.skip(1) == none);
    assert(spec_reconcile(m1, none, x) == (m1, none, Ok::<(), TinyDfsError>(())));
    assert(spec_reconcile(m, files, x) == spec_reconcile(m1, none, x));
    assert(m1.dom().contains(p));
    assert(spec_reconcile(m1, none, y) == (m1, none, Ok::<(), TinyDfsError>(())));
    let rec_y = spec_reconcile(m1, files, y);
    assert(rec_y == (m1, seq![f] + none, Ok::<(), TinyDfsError>(())));
    assert(seq![f] + none =~= seq![f]);
}

/// Law: an insert at `p` with auto-created intermediates makes every proper
/// prefix of `p` resolve to a directory, and `p` itself to the new node, in
/// one call.
pub proof fn lemma_auto_creates_intermediates(m: Map<PathV, NodeV>, p: PathV, node: NodeV)
    requires
        create_outcome(m, p, node, true).1 is Ok,
    ensures
        ({
            let m1 = create_outcome(m, p, node, true).0;
            &&& m1.dom().contains(p) && m1[p] == node
            &&& forall|k: int|
                1 <= k < p.len() ==> m1.dom().contains(#[trigger] p.take(k)) && m1[p.take(
                    k,
                )].is_dir
        }),
{
    let m1 = create_outcome(m, p, node, true).0;
    let ai = add_intermediates(m, p);
    assert forall|k: int| 1 <= k < p.len() implies m1.dom().contains(#[trigger] p.take(k))
        && m1[p.take(k)].is_dir by {
        let q = p.take(k);
        assert(q.len() == k);
        assert(ai.dom().contains(q));
        assert(m1[q] == ai[q]);
        if m.dom().contains(q) {
            assert(m[q].is_dir);
        }
    }
}

} // verus!

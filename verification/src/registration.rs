//! Storage-node registration and reconciliation.
//!
//! When a storage node registers, the files it reports are compared against
//! the namespace: a path already present is a duplicate (the node is told to
//! delete its local copy, and the owner recorded in the namespace stays the
//! first registrant); an absent path gets a namespace entry owned by the
//! registering node, with intermediate directories created as needed.

use vstd::prelude::*;

use crate::dir_tree::{create_outcome, node_file, requested_node, DirTree, NodeV};
use crate::error::TinyDfsError;
use crate::path::{seg_views, spec_segments_of, PathV};
use crate::server::{has_addr, Ip, StorageServer};
use crate::service::NamingService;

verus! {

/// What one registration request carries: the node's identity and the paths
/// of the files it holds on local disk.
pub struct RegisterArg {
    pub storage_ip: String,
    pub client_port: u16,
    pub command_port: u16,
    pub files: Vec<String>,
}

/// A successful registration response: the registered node must delete its
/// local copies of these paths.
pub struct RegisterOkResponse {
    pub files: Vec<String>,
}

/// A failed registration response.
pub struct RegisterErrResponse {
    pub exception_type: String,
    pub exception_info: String,
}

/// The namespace, the duplicate list and the result after reconciling a
/// node's reported files, in order. A present path joins the duplicate list;
/// an absent one is created, owned by `srv`, auto-creating intermediates.
/// A path whose creation fails stops the walk with that error.
pub open spec fn spec_reconcile(
    m: Map<PathV, NodeV>,
    files: Seq<Seq<char>>,
    srv: StorageServer,
) -> (Map<PathV, NodeV>, Seq<Seq<char>>, Result<(), TinyDfsError>)
    decreases files.len(),
{
    if files.len() == 0 {
        (m, Seq::empty(), Ok(()))
    } else {
        let p = spec_segments_of(files[0]);
        if m.dom().contains(p) {
            let rec = spec_reconcile(m, files.skip(1), srv);
            (rec.0, seq![files[0]] + rec.1, rec.2)
        } else {
            let c = create_outcome(m, p, node_file(srv), true);
            if c.1 is Ok {
                spec_reconcile(c.0, files.skip(1), srv)
            } else {
                (m, Seq::empty(), Err(c.1->Err_0))
            }
        }
    }
}

/// Reconciles the files reported by a registering node against the
/// namespace, and returns the reported paths that were already present.
pub fn collect_files(tree: &mut DirTree, files: &Vec<String>, srv: &StorageServer) -> (r: Result<
    Vec<String>,
    TinyDfsError,
>)
    requires
        old(tree).wf(),
    ensures
        final (tree).wf(),
        ({
            let rec = spec_reconcile(old(tree).ns(), seg_views(files@), *srv);
            &&& final (tree).ns() == rec.0
            &&& match r {
                Ok(d) => rec.2 is Ok && seg_views(d@) == rec.1,
                Err(e) => rec.2 == Err::<(), TinyDfsError>(e),
            }
        }),
{
    let ghost m0 = tree.ns();
    let ghost fvs = seg_views(files@);
    let mut dups: Vec<String> = Vec::new();
    let n = files.len();
    let mut i: usize = 0;
    proof {
        assert(fvs.skip(0) =~= fvs);
        assert(seg_views(dups@) + spec_reconcile(tree.ns(), fvs, *srv).1 =~= spec_reconcile(
            tree.ns(),
            fvs,
            *srv,
        ).1);
    }
    while i < n
        invariant
            i <= n,
            n == files@.len(),
            fvs == seg_views(files@),
            m0 == old(tree).ns(),
            tree.wf(),
            ({
                let rec_all = spec_reconcile(m0, fvs, *srv);
                let rec_rest = spec_reconcile(tree.ns(), fvs.skip(i as int), *srv);
                rec_all == (rec_rest.0, seg_views(dups@) + rec_rest.1, rec_rest.2)
            }),
        decreases n - i,
    {
        let ghost rest = fvs.skip(i as int);
        proof {
            assert(rest[0] == fvs[i as int]);
            assert(fvs[i as int] == files@[i as int]@);
            assert(rest.skip(1) =~= fvs.skip(i as int + 1));
        }
        let segs = crate::path::parse_path(files[i].as_str());
        let ghost p = spec_segments_of(files@[i as int]@);
        let (_, target) = tree.lookup(&segs);
        match target {
            Some(_) => {
                let ghost dups0 = dups@;
                dups.push(files[i].clone());
                proof {
                    let rec_rest = spec_reconcile(tree.ns(), rest, *srv);
                    let rec_next = spec_reconcile(tree.ns(), fvs.skip(i as int + 1), *srv);
                    assert(rec_rest == (rec_next.0, seq![fvs[i as int]] + rec_next.1, rec_next.2));
                    assert(seg_views(dups@) =~= seg_views(dups0) + seq![fvs[i as int]]);
                    assert(seg_views(dups0) + (seq![fvs[i as int]] + rec_next.1) =~= (seg_views(
                        dups0,
                    ) + seq![fvs[i as int]]) + rec_next.1);
                }
            },
            None => {
                let ghost mi = tree.ns();
                let res = tree.create_file(&segs, false, Some(srv), true);
                proof {
                    assert(requested_node(false, Some(srv)) == node_file(*srv));
                }
                match res {
                    Ok(_) => {
                        proof {
                            let c = create_outcome(mi, p, node_file(*srv), true);
                            assert(c.1 is Ok && tree.ns() == c.0);
                        }
                    },
                    Err(e) => {
                        proof {
                            let c = create_outcome(mi, p, node_file(*srv), true);
                            assert(c.1 == Err::<(), TinyDfsError>(e) && tree.ns() == mi);
                            let rec_rest = spec_reconcile(tree.ns(), rest, *srv);
                            assert(rec_rest == (mi, Seq::<Seq<char>>::empty(), Err::<
                                (),
                                TinyDfsError,
                            >(e)));
                            assert(seg_views(dups@) + Seq::<Seq<char>>::empty() =~= seg_views(
                                dups@,
                            ));
                        }
                        return Err(e);
                    },
                }
            },
        }
        i = i + 1;
    }
    proof {
        assert(fvs.skip(n as int) =~= Seq::<Seq<char>>::empty());
        assert(seg_views(dups@) + Seq::<Seq<char>>::empty() =~= seg_views(dups@));
    }
    Ok(dups)
}

/// The test that marks a reported path as a duplicate: it is already present
/// in the namespace `m`.
pub open spec fn dup_filter(m: Map<PathV, NodeV>) -> spec_fn(Seq<char>) -> bool {
    |f: Seq<char>| m.dom().contains(spec_segments_of(f))
}

/// The reported paths that are already present in the namespace: the
/// duplicates that a registration with these files would purge, were none of
/// them created along the way.
pub fn retrive_duplicated_files(tree: &DirTree, files: &Vec<String>) -> (r: Vec<String>)
    requires
        tree.wf(),
    ensures
        seg_views(r@) == seg_views(files@).filter(dup_filter(tree.ns())),
{
    let mut dups: Vec<String> = Vec::new();
    let n = files.len();
    let mut i: usize = 0;
    proof {
        assert(seg_views(files@).take(0) =~= Seq::<Seq<char>>::empty());
        reveal(Seq::filter);
    }
    while i < n
        invariant
            i <= n,
            n == files@.len(),
            tree.wf(),
            seg_views(dups@) == seg_views(files@).take(i as int).filter(dup_filter(tree.ns())),
        decreases n - i,
    {
        let ghost fvs = seg_views(files@);
        let ghost pre = fvs.take(i as int);
        let ghost pre1 = fvs.take(i as int + 1);
        proof {
            reveal(Seq::filter);
            assert(pre1.drop_last() =~= pre);
            assert(pre1.last() == files@[i as int]@);
        }
        let segs = crate::path::parse_path(files[i].as_str());
        let (_, target) = tree.lookup(&segs);
        let ghost dups0 = dups@;
        if target.is_some() {
            dups.push(files[i].clone());
            proof {
                assert(seg_views(dups@) =~= seg_views(dups0).push(files@[i as int]@));
            }
        }
        i = i + 1;
    }
    proof {
        assert(seg_views(files@).take(n as int) =~= seg_views(files@));
    }
    dups
}

/// What a registration attempt answers.
pub enum RegisterResponse {
    OkResp(RegisterOkResponse),
    ErrResp(RegisterErrResponse),
}

/// Admits the storage node described by `arg` and reconciles its reported
/// files against the namespace. A duplicate address is rejected with status
/// 409 and changes nothing; otherwise the node is registered and the
/// response carries the reported paths that were already present, which the
/// node must delete locally.
pub fn register_storage_server(svc: &mut NamingService, arg: &RegisterArg) -> (r: (
    u16,
    RegisterResponse,
))
    requires
        old(svc).wf(),
    ensures
        final (svc).wf(),
        ({
            let ip = arg.storage_ip@;
            if has_addr(old(svc).servers.servers@, ip) {
                &&& final (svc).tree == old(svc).tree
                &&& final (svc).servers.servers@ == old(svc).servers.servers@
                &&& r.0 == 409
                &&& r.1 matches RegisterResponse::ErrResp(e) && e.exception_type@
                    == "IllegalStateException"@ && e.exception_info@
                    == "This storage client already registered."@
            } else {
                exists|s: StorageServer|
                    {
                        &&& s.ip@ == ip
                        &&& s.client_port == arg.client_port
                        &&& s.command_port == arg.command_port
                        &&& #[trigger] final (svc).servers.servers@ == old(
                            svc,
                        ).servers.servers@.push(s)
                        &&& ({
                            let rec = spec_reconcile(old(svc).tree.ns(), seg_views(arg.files@), s);
                            &&& final (svc).tree.ns() == rec.0
                            &&& match rec.2 {
                                Ok(_) => r.0 == 200 && (r.1 matches RegisterResponse::OkResp(ok)
                                    && seg_views(ok.files@) == rec.1),
                                Err(e) => r.0 == e.spec_status() && (
                                r.1 matches RegisterResponse::ErrResp(er) && er.exception_type@
                                    == e.spec_exception_type() && er.exception_info@
                                    == e.spec_exception_info()),
                            }
                        })
                    }
            }
        }),
{
    let srv = StorageServer::new(
        Ip(arg.storage_ip.clone()),
        arg.client_port,
        arg.command_port,
    );
    match svc.servers.register_server(&srv) {
        Err(_) => {
            (
                409,
                RegisterResponse::ErrResp(
                    RegisterErrResponse {
                        exception_type: "IllegalStateException".to_owned(),
                        exception_info: "This storage client already registered.".to_owned(),
                    },
                ),
            )
        },
        Ok(_) => {
            match collect_files(&mut svc.tree, &arg.files, &srv) {
                Ok(dups) => (200, RegisterResponse::OkResp(RegisterOkResponse { files: dups })),
                Err(e) => {
                    let (status, etype, einfo) = e.exception();
                    (
                        status,
                        RegisterResponse::ErrResp(
                            RegisterErrResponse {
                                exception_type: etype.to_owned(),
                                exception_info: einfo.to_owned(),
                            },
                        ),
                    )
                },
            }
        },
    }
}

} // verus!

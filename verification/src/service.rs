//! The naming-service API: one operation per inbound endpoint, each
//! translating a request into namespace and registry calls, an HTTP status
//! code and a structured response body.
//!
//! Operations that change replicas (`create_file`, `delete_file`) also
//! return the broadcast plan: one command per owner of the file, to be sent
//! to that node's command endpoint. Dispatching the commands, and collecting
//! each replica's reply, happens outside the library;
//! [`failed_replicas`] aggregates the replies back into the indexes of the
//! owners whose command failed.

use vstd::prelude::*;
use vstd::string::StringExecFns;

use crate::dir_tree::{
    create_outcome, delete_outcome, list_outcome, node_dir, node_file, parent_resolves,
    requested_node, DirTree,
};
use crate::error::TinyDfsError;
use crate::path::{parse_path, seg_views, spec_segments_of};
use crate::server::{select_one_server, Ip, ServerManager, StorageServer};

verus! {

/// A request naming one path.
pub struct PathArg {
    pub path: String,
}

/// A plain success body.
pub struct OkResponse {
    pub success: bool,
}

/// A structured failure body.
pub struct ErrResponse {
    pub exception_type: String,
    pub exception_info: String,
}

pub struct IsValidPathResponse {
    pub success: bool,
}

/// Where a client can read one file: a storage node's address and client
/// port.
pub struct GetStorageOkResponse {
    pub server_ip: Ip,
    pub server_port: u16,
}

pub enum GetStorageResponse {
    OkResp(GetStorageOkResponse),
    ErrResp(ErrResponse),
}

pub enum DeleteResponse {
    OkResp(OkResponse),
    ErrResp(ErrResponse),
}

pub enum CreateDirectoryResponse {
    OkResp(OkResponse),
    ErrResp(ErrResponse),
}

pub enum CreateFileResponse {
    OkResp(OkResponse),
    ErrResp(ErrResponse),
}

pub struct ListOkResponse {
    pub files: Vec<String>,
}

pub enum ListResponse {
    OkResp(ListOkResponse),
    ErrResp(ErrResponse),
}

pub enum IsDirectoryResponse {
    OkResp(OkResponse),
    ErrResp(ErrResponse),
}

/// What a broadcast asks each owner to do with its local copy.
#[derive(Clone, Copy, PartialEq, Eq, Structural, Debug)]
pub enum CommandKind {
    StorageCreate,
    StorageDelete,
}

/// One outbound command of a broadcast: the owner's command endpoint and the
/// path it concerns.
pub struct BroadcastCommand {
    pub ip: Ip,
    pub command_port: u16,
    pub path: String,
    pub kind: CommandKind,
}

/// `cmds` carries `kind` for `path` to every owner in order, one command
/// each.
pub open spec fn commands_for(
    cmds: Seq<BroadcastCommand>,
    owners: Seq<StorageServer>,
    path: Seq<char>,
    kind: CommandKind,
) -> bool {
    &&& cmds.len() == owners.len()
    &&& forall|k: int|
        0 <= k < cmds.len() ==> (#[trigger] cmds[k]).ip@ == owners[k].ip@ && cmds[k].command_port
            == owners[k].command_port && cmds[k].path@ == path && cmds[k].kind == kind
}

/// The whole state of one naming service: the namespace and the registry of
/// storage nodes, constructed once at startup and handed to every operation.
pub struct NamingService {
    pub tree: DirTree,
    pub servers: ServerManager,
}

impl NamingService {
    pub open spec fn wf(self) -> bool {
        self.tree.wf()
    }

    /// A naming service with an empty namespace and no registered nodes.
    pub fn new() -> (r: Self)
        ensures
            r.wf(),
            r.tree.ns() == Map::<crate::path::PathV, crate::dir_tree::NodeV>::empty(),
            r.servers.servers@ == Seq::<StorageServer>::empty(),
    {
        NamingService { tree: DirTree::new(), servers: ServerManager::new() }
    }
}

/// The status code and body reported for an error kind.
pub fn err_response(e: TinyDfsError) -> (r: (u16, ErrResponse))
    ensures
        r.0 == e.spec_status(),
        r.1.exception_type@ == e.spec_exception_type(),
        r.1.exception_info@ == e.spec_exception_info(),
{
    let (status, etype, einfo) = e.exception();
    (status, ErrResponse { exception_type: etype.to_owned(), exception_info: einfo.to_owned() })
}

/// One command per owner, in owner-set order.
fn build_commands(owners: &Vec<StorageServer>, path: &String, kind: CommandKind) -> (r: Vec<
    BroadcastCommand,
>)
    ensures
        commands_for(r@, owners@, path@, kind),
{
    let mut r: Vec<BroadcastCommand> = Vec::new();
    let n = owners.len();
    let mut i: usize = 0;
    while i < n
        invariant
            i <= n,
            n == owners@.len(),
            r@.len() == i,
            forall|k: int|
                0 <= k < i ==> (#[trigger] r@[k]).ip@ == owners@[k].ip@ && r@[k].command_port
                    == owners@[k].command_port && r@[k].path@ == path@ && r@[k].kind == kind,
        decreases n - i,
    {
        let o = &owners[i];
        r.push(
            BroadcastCommand {
                ip: o.ip.duplicate(),
                command_port: o.command_port,
                path: path.clone(),
                kind,
            },
        );
        i = i + 1;
    }
    r
}

/// Whether `path` resolves to a present node.
pub fn is_valid_path(svc: &NamingService, arg: &PathArg) -> (r: (u16, IsValidPathResponse))
    requires
        svc.wf(),
    ensures
        r.0 == 200,
        r.1.success == svc.tree.ns().dom().contains(spec_segments_of(arg.path@)),
{
    let segs = parse_path(arg.path.as_str());
    let (_, target) = svc.tree.lookup(&segs);
    (200, IsValidPathResponse { success: target.is_some() })
}

/// Picks one replica of the file at `path` for a client to read: a
/// uniformly random member of its owner set. Anything but a present regular
/// file reports `FileNotFoundException`.
pub fn get_storage_server(svc: &NamingService, arg: &PathArg) -> (r: (u16, GetStorageResponse))
    requires
        svc.wf(),
    ensures
        ({
            let m = svc.tree.ns();
            let p = spec_segments_of(arg.path@);
            if m.dom().contains(p) && !m[p].is_dir {
                &&& r.0 == 200
                &&& r.1 matches GetStorageResponse::OkResp(ok) && exists|k: int|
                    0 <= k < m[p].owners.len() && ok.server_ip@ == (#[trigger] m[p].owners[k]).ip@
                        && ok.server_port == m[p].owners[k].client_port
            } else {
                &&& r.0 == 404
                &&& r.1 matches GetStorageResponse::ErrResp(e) && e.exception_type@
                    == "FileNotFoundException"@ && e.exception_info@ == arg.path@
                    + " cannot be found"@
            }
        }),
{
    let segs = parse_path(arg.path.as_str());
    let (_, target) = svc.tree.lookup(&segs);
    match target {
        Some(j) => {
            let e = &svc.tree.entries[j];
            match e.node.servers() {
                Some(srvs) => {
                    let srv = select_one_server(srvs);
                    proof {
                        let m = svc.tree.ns();
                        let p = spec_segments_of(arg.path@);
                        let k = choose|k: int| 0 <= k < srvs@.len() && srvs@[k] == srv;
                        assert(m[p].owners[k] == srv);
                    }
                    (
                        200,
                        GetStorageResponse::OkResp(
                            GetStorageOkResponse {
                                server_ip: srv.ip,
                                server_port: srv.client_port,
                            },
                        ),
                    )
                },
                None => {
                    (
                        404,
                        GetStorageResponse::ErrResp(
                            ErrResponse {
                                exception_type: "FileNotFoundException".to_owned(),
                                exception_info: arg.path.clone().concat(" cannot be found"),
                            },
                        ),
                    )
                },
            }
        },
        None => {
            (
                404,
                GetStorageResponse::ErrResp(
                    ErrResponse {
                        exception_type: "FileNotFoundException".to_owned(),
                        exception_info: arg.path.clone().concat(" cannot be found"),
                    },
                ),
            )
        },
    }
}

/// Removes the regular file at `path` and plans a `StorageDelete` broadcast
/// to every owner of the removed file. A directory target is unsupported and
/// reports the `PathInvalid` body; a missing target and a broken walk both
/// report `FileNotFoundException`.
pub fn delete_file(svc: &mut NamingService, arg: &PathArg) -> (r: (
    u16,
    DeleteResponse,
    Vec<BroadcastCommand>,
))
    requires
        old(svc).wf(),
    ensures
        final (svc).wf(),
        final (svc).servers == old(svc).servers,
        ({
            let out = delete_outcome(old(svc).tree.ns(), spec_segments_of(arg.path@));
            &&& final (svc).tree.ns() == out.0
            &&& match out.1 {
                Ok(node) => {
                    &&& r.0 == 200
                    &&& r.1 matches DeleteResponse::OkResp(ok) && ok.success
                    &&& commands_for(r.2@, node.owners, arg.path@, CommandKind::StorageDelete)
                },
                Err(e) => {
                    &&& r.2@.len() == 0
                    &&& if e == TinyDfsError::PathInvalid {
                        &&& r.0 == 404
                        &&& r.1 matches DeleteResponse::ErrResp(er) && er.exception_type@
                            == TinyDfsError::PathInvalid.spec_exception_type()
                            && er.exception_info@
                            == TinyDfsError::PathInvalid.spec_exception_info()
                    } else {
                        &&& r.0 == 404
                        &&& r.1 matches DeleteResponse::ErrResp(er) && er.exception_type@
                            == "FileNotFoundException"@ && er.exception_info@
                            == "the object or parent directory does not exist."@
                    }
                },
            }
        }),
{
    let segs = parse_path(arg.path.as_str());
    match svc.tree.delete_file(&segs) {
        Ok(f) => {
            let cmds = build_commands(&f.srvs, &arg.path, CommandKind::StorageDelete);
            (200, DeleteResponse::OkResp(OkResponse { success: true }), cmds)
        },
        Err(e) => {
            if e == TinyDfsError::PathInvalid {
                let (status, resp) = err_response(e);
                (status, DeleteResponse::ErrResp(resp), Vec::new())
            } else {
                (
                    404,
                    DeleteResponse::ErrResp(
                        ErrResponse {
                            exception_type: "FileNotFoundException".to_owned(),
                            exception_info: "the object or parent directory does not exist.".to_owned(),
                        },
                    ),
                    Vec::new(),
                )
            }
        },
    }
}

/// Creates a directory at `path`; intermediates are not auto-created.
pub fn create_directory(svc: &mut NamingService, arg: &PathArg) -> (r: (
    u16,
    CreateDirectoryResponse,
))
    requires
        old(svc).wf(),
    ensures
        final (svc).wf(),
        final (svc).servers == old(svc).servers,
        ({
            let out = create_outcome(
                old(svc).tree.ns(),
                spec_segments_of(arg.path@),
                node_dir(),
                false,
            );
            &&& final (svc).tree.ns() == out.0
            &&& match out.1 {
                Ok(_) => r.0 == 200 && (r.1 matches CreateDirectoryResponse::OkResp(ok)
                    && ok.success),
                Err(e) => r.0 == e.spec_status() && (r.1 matches CreateDirectoryResponse::ErrResp(
                    er,
                ) && er.exception_type@ == e.spec_exception_type() && er.exception_info@
                    == e.spec_exception_info()),
            }
        }),
{
    let segs = parse_path(arg.path.as_str());
    proof {
        assert(requested_node(true, None) == node_dir());
    }
    match svc.tree.create_file(&segs, true, None, false) {
        Ok(_) => (200, CreateDirectoryResponse::OkResp(OkResponse { success: true })),
        Err(e) => {
            let (status, resp) = err_response(e);
            (status, CreateDirectoryResponse::ErrResp(resp))
        },
    }
}

/// Creates a regular file at `path`, owned by a randomly chosen registered
/// node, and plans a `StorageCreate` broadcast to the new owner set. With no
/// node registered, the create is refused; intermediates are not
/// auto-created.
pub fn create_file(svc: &mut NamingService, arg: &PathArg) -> (r: (
    u16,
    CreateFileResponse,
    Vec<BroadcastCommand>,
))
    requires
        old(svc).wf(),
    ensures
        final (svc).wf(),
        final (svc).servers == old(svc).servers,
        ({
            let m = old(svc).tree.ns();
            let p = spec_segments_of(arg.path@);
            if old(svc).servers.servers@.len() == 0 {
                &&& final (svc).tree.ns() == m
                &&& r.0 == 409
                &&& r.1 matches CreateFileResponse::ErrResp(er) && er.exception_type@
                    == "IllegalStateException"@ && er.exception_info@
                    == "no storage server registered"@
                &&& r.2@.len() == 0
            } else {
                exists|s: StorageServer|
                    {
                        &&& #[trigger] old(svc).servers.servers@.contains(s)
                        &&& ({
                            let out = create_outcome(m, p, node_file(s), false);
                            &&& final (svc).tree.ns() == out.0
                            &&& match out.1 {
                                Ok(_) => {
                                    &&& r.0 == 200
                                    &&& r.1 matches CreateFileResponse::OkResp(ok) && ok.success
                                    &&& commands_for(
                                        r.2@,
                                        seq![s],
                                        arg.path@,
                                        CommandKind::StorageCreate,
                                    )
                                },
                                Err(e) => {
                                    &&& r.0 == e.spec_status()
                                    &&& r.1 matches CreateFileResponse::ErrResp(er)
                                        && er.exception_type@ == e.spec_exception_type()
                                        && er.exception_info@ == e.spec_exception_info()
                                    &&& r.2@.len() == 0
                                },
                            }
                        })
                    }
            }
        }),
{
    let segs = parse_path(arg.path.as_str());
    match svc.servers.get_random() {
        None => {
            (
                409,
                CreateFileResponse::ErrResp(
                    ErrResponse {
                        exception_type: "IllegalStateException".to_owned(),
                        exception_info: "no storage server registered".to_owned(),
                    },
                ),
                Vec::new(),
            )
        },
        Some(s) => {
            proof {
                assert(requested_node(false, Some(&s)) == node_file(s));
            }
            let res = svc.tree.create_file(&segs, false, Some(&s), false);
            match res {
                Ok(_) => {
                    let mut owners: Vec<StorageServer> = Vec::new();
                    owners.push(s);
                    let cmds = build_commands(&owners, &arg.path, CommandKind::StorageCreate);
                    proof {
                        assert(owners@ =~= seq![owners@[0]]);
                    }
                    (200, CreateFileResponse::OkResp(OkResponse { success: true }), cmds)
                },
                Err(e) => {
                    let (status, resp) = err_response(e);
                    (status, CreateFileResponse::ErrResp(resp), Vec::new())
                },
            }
        },
    }
}

/// Lists the child names of the directory at `path`.
pub fn list_dir(svc: &NamingService, arg: &PathArg) -> (r: (u16, ListResponse))
    requires
        svc.wf(),
    ensures
        ({
            let out = list_outcome(svc.tree.ns(), spec_segments_of(arg.path@));
            match out {
                Ok(s) => {
                    &&& r.0 == 200
                    &&& r.1 matches ListResponse::OkResp(ok) && seg_views(ok.files@).to_set() == s
                        && (forall|a: int, b: int|
                        0 <= a < b < ok.files@.len() ==> ok.files@[a]@ != ok.files@[b]@)
                },
                Err(e) => {
                    &&& r.0 == e.spec_status()
                    &&& r.1 matches ListResponse::ErrResp(er) && er.exception_type@
                        == e.spec_exception_type() && er.exception_info@ == e.spec_exception_info()
                },
            }
        }),
{
    let segs = parse_path(arg.path.as_str());
    match svc.tree.list(&segs) {
        Ok(names) => (200, ListResponse::OkResp(ListOkResponse { files: names })),
        Err(e) => {
            let (status, resp) = err_response(e);
            (status, ListResponse::ErrResp(resp))
        },
    }
}

/// Whether the node at `path` is a directory; absence reports
/// `FileNotFound`, an unresolvable walk `PathInvalid`.
pub fn is_directory(svc: &NamingService, arg: &PathArg) -> (r: (u16, IsDirectoryResponse))
    requires
        svc.wf(),
    ensures
        ({
            let m = svc.tree.ns();
            let p = spec_segments_of(arg.path@);
            if m.dom().contains(p) {
                r.0 == 200 && (r.1 matches IsDirectoryResponse::OkResp(ok) && ok.success
                    == m[p].is_dir)
            } else {
                {
                    let e = if parent_resolves(m, p) {
                        TinyDfsError::FileNotFound
                    } else {
                        TinyDfsError::PathInvalid
                    };
                    &&& r.0 == e.spec_status()
                    &&& r.1 matches IsDirectoryResponse::ErrResp(er) && er.exception_type@
                        == e.spec_exception_type() && er.exception_info@ == e.spec_exception_info()
                }
            }
        }),
{
    let segs = parse_path(arg.path.as_str());
    let (parent_found, target) = svc.tree.lookup(&segs);
    match target {
        Some(j) => {
            let e = &svc.tree.entries[j];
            (200, IsDirectoryResponse::OkResp(OkResponse { success: e.node.is_dir() }))
        },
        None => {
            let e = if parent_found {
                TinyDfsError::FileNotFound
            } else {
                TinyDfsError::PathInvalid
            };
            let (status, resp) = err_response(e);
            (status, IsDirectoryResponse::ErrResp(resp))
        },
    }
}

/// The indexes of the owners whose broadcast command failed, in order:
/// `results` holds one success flag per dispatched command.
pub fn failed_replicas(results: &Vec<bool>) -> (r: Vec<usize>)
    ensures
        forall|k: int|
            0 <= k < r@.len() ==> (#[trigger] r@[k]) < results@.len() && !results@[r@[k] as int],
        forall|j: int|
            0 <= j < results@.len() && !(#[trigger] results@[j]) ==> r@.contains(j as usize),
        forall|k1: int, k2: int| 0 <= k1 < k2 < r@.len() ==> r@[k1] < r@[k2],
{
    let mut r: Vec<usize> = Vec::new();
    let n = results.len();
    let mut i: usize = 0;
    while i < n
        invariant
            i <= n,
            n == results@.len(),
            forall|k: int|
                0 <= k < r@.len() ==> (#[trigger] r@[k]) < i && !results@[r@[k] as int],
            forall|j: int| 0 <= j < i && !(#[trigger] results@[j]) ==> r@.contains(j as usize),
            forall|k1: int, k2: int| 0 <= k1 < k2 < r@.len() ==> r@[k1] < r@[k2],
        decreases n - i,
    {
        if !results[i] {
            let ghost r0 = r@;
            r.push(i);
            proof {
                assert forall|j: int|
                    0 <= j < i + 1 && !(#[trigger] results@[j]) implies r@.contains(j as usize) by {
                    if j < i {
                        let k = choose|k: int| 0 <= k < r0.len() && r0[k] == j as usize;
                        assert(r@[k] == j as usize);
                    } else {
                        assert(r@[r@.len() - 1] == j as usize);
                    }
                }
            }
        }
        i = i + 1;
    }
    r
}

} // verus!

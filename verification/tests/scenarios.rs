//! End-to-end scenarios on one naming service, and the edge cases of path
//! normalization, selection and error reporting.

use tiny_dfs::dir_tree::DirTree;
use tiny_dfs::error::TinyDfsError;
use tiny_dfs::path::parse_path;
use tiny_dfs::registration::{
    register_storage_server, retrive_duplicated_files, RegisterArg, RegisterResponse,
};
use tiny_dfs::server::{select_one_server, Ip, ServerManager, StorageServer};
use tiny_dfs::service::{
    create_directory, create_file, delete_file, failed_replicas, get_storage_server,
    is_directory, is_valid_path, CreateDirectoryResponse, CreateFileResponse, DeleteResponse,
    GetStorageResponse, IsDirectoryResponse, NamingService, PathArg,
};

fn arg(path: &str) -> PathArg {
    PathArg { path: path.to_string() }
}

fn register_with(
    svc: &mut NamingService,
    ip: &str,
    client_port: u16,
    command_port: u16,
    files: &[&str],
) -> (u16, RegisterResponse) {
    register_storage_server(
        svc,
        &RegisterArg {
            storage_ip: ip.to_string(),
            client_port,
            command_port,
            files: files.iter().map(|f| f.to_string()).collect(),
        },
    )
}

#[test]
fn scenario_create_then_read_path() {
    let mut svc = NamingService::new();
    let (status, resp) = create_directory(&mut svc, &arg("/docs"));
    assert_eq!(status, 200);
    assert!(matches!(resp, CreateDirectoryResponse::OkResp(_)));

    let (status, _) = register_with(&mut svc, "localhost", 11111, 22222, &[]);
    assert_eq!(status, 200);

    let (status, resp, _) = create_file(&mut svc, &arg("/docs/readme"));
    assert_eq!(status, 200);
    assert!(matches!(resp, CreateFileResponse::OkResp(_)));

    let (_, resp) = is_valid_path(&svc, &arg("/docs/readme"));
    assert!(resp.success);

    // Scenario B: deleting the file makes the path invalid again.
    let (status, resp, _) = delete_file(&mut svc, &arg("/docs/readme"));
    assert_eq!(status, 200);
    assert!(matches!(resp, DeleteResponse::OkResp(_)));
    let (_, resp) = is_valid_path(&svc, &arg("/docs/readme"));
    assert!(!resp.success);
    // The directory it sat in persists.
    let (_, resp) = is_valid_path(&svc, &arg("/docs"));
    assert!(resp.success);
}

#[test]
fn scenario_get_storage_for_missing_path() {
    let svc = NamingService::new();
    let (status, resp) = get_storage_server(&svc, &arg("/missing"));
    assert_eq!(status, 404);
    match resp {
        GetStorageResponse::ErrResp(e) => {
            assert_eq!(e.exception_type, "FileNotFoundException");
            assert_eq!(e.exception_info, "/missing cannot be found");
        },
        GetStorageResponse::OkResp(_) => panic!("a missing path has no storage"),
    }
}

#[test]
fn scenario_dedup_second_registrant() {
    let mut svc = NamingService::new();
    let (status, resp) = register_with(&mut svc, "10.0.0.1", 1000, 1001, &["/a"]);
    assert_eq!(status, 200);
    match resp {
        RegisterResponse::OkResp(ok) => assert!(ok.files.is_empty()),
        RegisterResponse::ErrResp(_) => panic!("first registration must succeed"),
    }

    let (status, resp) = register_with(&mut svc, "10.0.0.2", 2000, 2001, &["/a"]);
    assert_eq!(status, 200);
    match resp {
        RegisterResponse::OkResp(ok) => assert_eq!(ok.files, vec!["/a".to_string()]),
        RegisterResponse::ErrResp(_) => panic!("second registration must succeed"),
    }

    // The namespace still shows the first registrant as sole owner.
    let (status, resp) = get_storage_server(&svc, &arg("/a"));
    assert_eq!(status, 200);
    match resp {
        GetStorageResponse::OkResp(ok) => {
            assert_eq!(ok.server_ip.0, "10.0.0.1");
            assert_eq!(ok.server_port, 1000);
        },
        GetStorageResponse::ErrResp(_) => panic!("a present file has storage"),
    }
}

#[test]
fn intermediate_directories_auto_created() {
    let mut tree = DirTree::new();
    let owner = StorageServer::new(Ip("localhost".to_string()), 11111, 22222);
    let segs = parse_path("/a/b/c");
    tree.create_file(&segs, false, Some(&owner), true).expect("auto-create must succeed");

    let svc = NamingService { tree, servers: ServerManager::new() };
    let (_, resp) = is_valid_path(&svc, &arg("/a/b/c"));
    assert!(resp.success);
    let (status, resp) = is_directory(&svc, &arg("/a/b"));
    assert_eq!(status, 200);
    match resp {
        IsDirectoryResponse::OkResp(ok) => assert!(ok.success),
        IsDirectoryResponse::ErrResp(_) => panic!("the intermediate directory must exist"),
    }
    let (status, resp) = is_directory(&svc, &arg("/a/b/c"));
    assert_eq!(status, 200);
    match resp {
        IsDirectoryResponse::OkResp(ok) => assert!(!ok.success),
        IsDirectoryResponse::ErrResp(_) => panic!("the created file must exist"),
    }
}

#[test]
fn directory_deletion_unsupported() {
    let mut svc = NamingService::new();
    let (status, _) = create_directory(&mut svc, &arg("/docs"));
    assert_eq!(status, 200);
    let (status, resp, commands) = delete_file(&mut svc, &arg("/docs"));
    assert_eq!(status, 404);
    match resp {
        DeleteResponse::ErrResp(e) => {
            assert_eq!(e.exception_type, "IllegalArgumentException");
            assert_eq!(e.exception_info, "path invalid");
        },
        DeleteResponse::OkResp(_) => panic!("directory deletion is unsupported"),
    }
    assert!(commands.is_empty());
    let (_, resp) = is_valid_path(&svc, &arg("/docs"));
    assert!(resp.success);
}

#[test]
fn path_normalization() {
    assert_eq!(parse_path("/a/b/c"), vec!["a", "b", "c"]);
    assert_eq!(parse_path("/a//b/"), vec!["a", "b"]);
    assert_eq!(parse_path("a/b"), vec!["a", "b"]);
    assert_eq!(parse_path("/"), Vec::<String>::new());
    assert_eq!(parse_path(""), Vec::<String>::new());
    assert_eq!(parse_path("///"), Vec::<String>::new());
}

#[test]
fn root_path_is_not_addressable() {
    let svc = NamingService::new();
    let (_, resp) = is_valid_path(&svc, &arg("/"));
    assert!(!resp.success);
    let mut svc = NamingService::new();
    let (status, _) = create_directory(&mut svc, &arg("/"));
    assert_eq!(status, 404);
}

#[test]
fn exception_mapping() {
    let cases = [
        (TinyDfsError::StorageServerExists, 409, "IllegalStateException", "storage server exists"),
        (TinyDfsError::FileExists, 409, "IllegalStateException", "file exists"),
        (TinyDfsError::FileNotFound, 404, "FileNotFoundException", "file not found"),
        (TinyDfsError::DirNotFound, 404, "FileNotFoundException", "(parent) dir not found"),
        (TinyDfsError::DirReadErr, 409, "IllegalStateException", "dir read err"),
        (TinyDfsError::RegisterFailed, 409, "IllegalStateException", "server registerred failed"),
        (TinyDfsError::PathInvalid, 404, "IllegalArgumentException", "path invalid"),
        (
            TinyDfsError::IndexOutOfBound,
            404,
            "IndexOutOfBoundsException",
            "index out of bound of the file ",
        ),
        (TinyDfsError::IOInterrupted, 404, "IOException", "IO interrupted"),
    ];
    for (err, status, etype, einfo) in cases {
        assert_eq!(err.exception(), (status, etype, einfo));
    }
}

#[test]
fn selection_is_among_members() {
    let srvs = vec![
        StorageServer::new(Ip("10.0.0.1".to_string()), 1000, 1001),
        StorageServer::new(Ip("10.0.0.2".to_string()), 2000, 2001),
        StorageServer::new(Ip("10.0.0.3".to_string()), 3000, 3001),
    ];
    for _ in 0..32 {
        let s = select_one_server(&srvs);
        assert!(srvs.iter().any(|m| m.ip.0 == s.ip.0 && m.client_port == s.client_port));
    }
    let mut mgr = ServerManager::new();
    assert!(mgr.get_random().is_none());
    mgr.register_server(&srvs[0]).unwrap();
    let got = mgr.get_random().expect("a registered node must be found");
    assert_eq!(got.ip.0, "10.0.0.1");
}

#[test]
fn duplicates_query_matches_namespace() {
    let mut tree = DirTree::new();
    let owner = StorageServer::new(Ip("localhost".to_string()), 11111, 22222);
    tree.create_file(&parse_path("/a"), false, Some(&owner), true).unwrap();
    tree.create_file(&parse_path("/d/e"), false, Some(&owner), true).unwrap();
    let files = vec![
        "/a".to_string(),
        "/b".to_string(),
        "/d/e".to_string(),
        "/d".to_string(),
    ];
    let dups = retrive_duplicated_files(&tree, &files);
    assert_eq!(dups, vec!["/a".to_string(), "/d/e".to_string(), "/d".to_string()]);
}

#[test]
fn failed_replicas_are_reported() {
    assert_eq!(failed_replicas(&vec![true, false, true, false]), vec![1, 3]);
    assert_eq!(failed_replicas(&vec![true, true]), Vec::<usize>::new());
    assert_eq!(failed_replicas(&Vec::new()), Vec::<usize>::new());
}

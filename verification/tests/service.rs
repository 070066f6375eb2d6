//! The naming-service operations, exercised end to end on one service value.

use tiny_dfs::registration::{register_storage_server, RegisterArg};
use tiny_dfs::service::{
    create_directory, create_file, delete_file, is_directory, is_valid_path, list_dir,
    CommandKind, CreateDirectoryResponse, CreateFileResponse, DeleteResponse,
    IsDirectoryResponse, ListResponse, NamingService, PathArg,
};

fn arg(path: &str) -> PathArg {
    PathArg { path: path.to_string() }
}

fn svc_with_one_server(files: &[&str]) -> NamingService {
    let mut svc = NamingService::new();
    let (status, _) = register_storage_server(
        &mut svc,
        &RegisterArg {
            storage_ip: "localhost".to_string(),
            client_port: 11111,
            command_port: 22222,
            files: files.iter().map(|f| f.to_string()).collect(),
        },
    );
    assert_eq!(status, 200);
    svc
}

#[test]
fn service_test_valid_path() {
    let svc = svc_with_one_server(&["/test111", "/test222"]);
    let (status, resp) = is_valid_path(&svc, &arg("/test111"));
    assert_eq!(status, 200);
    assert!(resp.success);
    let (_, resp) = is_valid_path(&svc, &arg("/test333"));
    assert!(!resp.success);
}

#[test]
fn test_delete_file() {
    let mut svc = svc_with_one_server(&["/test111", "/test222"]);
    let (_, resp) = is_valid_path(&svc, &arg("/test111"));
    assert!(resp.success);

    let (status, resp, commands) = delete_file(&mut svc, &arg("/test111"));
    assert_eq!(status, 200);
    match resp {
        DeleteResponse::OkResp(ok) => assert!(ok.success),
        DeleteResponse::ErrResp(_) => panic!("delete of a present file must succeed"),
    }
    // The sole owner is told to delete its local copy.
    assert_eq!(commands.len(), 1);
    assert_eq!(commands[0].ip.0, "localhost");
    assert_eq!(commands[0].command_port, 22222);
    assert_eq!(commands[0].path, "/test111");
    assert!(matches!(commands[0].kind, CommandKind::StorageDelete));

    let (_, resp) = is_valid_path(&svc, &arg("/test111"));
    assert!(!resp.success);

    // Deleting it again reports the missing file.
    let (status, resp, commands) = delete_file(&mut svc, &arg("/test111"));
    assert_eq!(status, 404);
    match resp {
        DeleteResponse::ErrResp(e) => {
            assert_eq!(e.exception_type, "FileNotFoundException");
            assert_eq!(e.exception_info, "the object or parent directory does not exist.");
        },
        DeleteResponse::OkResp(_) => panic!("delete of an absent file must fail"),
    }
    assert!(commands.is_empty());
}

#[test]
fn test_create_file() {
    let mut svc = svc_with_one_server(&["/test111", "/test222"]);

    // The parent directory does not exist yet.
    let (status, resp, commands) = create_file(&mut svc, &arg("/test886/test888"));
    assert_eq!(status, 404);
    assert!(matches!(resp, CreateFileResponse::ErrResp(_)));
    assert!(commands.is_empty());

    let (status, resp) = create_directory(&mut svc, &arg("/test886"));
    assert_eq!(status, 200);
    assert!(matches!(resp, CreateDirectoryResponse::OkResp(_)));

    let (status, resp, commands) = create_file(&mut svc, &arg("/test886/test888"));
    assert_eq!(status, 200);
    assert!(matches!(resp, CreateFileResponse::OkResp(_)));
    // The new owner set has exactly one member: the chosen node.
    assert_eq!(commands.len(), 1);
    assert_eq!(commands[0].ip.0, "localhost");
    assert_eq!(commands[0].command_port, 22222);
    assert_eq!(commands[0].path, "/test886/test888");
    assert!(matches!(commands[0].kind, CommandKind::StorageCreate));

    let (_, resp) = is_valid_path(&svc, &arg("/test886/test888"));
    assert!(resp.success);

    // Creating it again reports the occupied path.
    let (status, resp, commands) = create_file(&mut svc, &arg("/test886/test888"));
    assert_eq!(status, 409);
    match resp {
        CreateFileResponse::ErrResp(e) => {
            assert_eq!(e.exception_type, "IllegalStateException");
            assert_eq!(e.exception_info, "file exists");
        },
        CreateFileResponse::OkResp(_) => panic!("create of an occupied path must fail"),
    }
    assert!(commands.is_empty());
}

#[test]
fn create_file_without_servers_is_refused() {
    let mut svc = NamingService::new();
    let (status, resp, commands) = create_file(&mut svc, &arg("/test111"));
    assert_eq!(status, 409);
    match resp {
        CreateFileResponse::ErrResp(e) => {
            assert_eq!(e.exception_type, "IllegalStateException");
            assert_eq!(e.exception_info, "no storage server registered");
        },
        CreateFileResponse::OkResp(_) => panic!("create without servers must fail"),
    }
    assert!(commands.is_empty());
    let (_, resp) = is_valid_path(&svc, &arg("/test111"));
    assert!(!resp.success);
}

#[test]
fn test_list_dir() {
    let mut svc = svc_with_one_server(&["/test111", "/test222"]);
    let (status, _) = create_directory(&mut svc, &arg("/test886"));
    assert_eq!(status, 200);
    let (status, _, _) = create_file(&mut svc, &arg("/test886/test888"));
    assert_eq!(status, 200);
    let (status, _, _) = create_file(&mut svc, &arg("/test886/test777"));
    assert_eq!(status, 200);

    let (status, resp) = is_directory(&svc, &arg("/test886"));
    assert_eq!(status, 200);
    match resp {
        IsDirectoryResponse::OkResp(ok) => assert!(ok.success),
        IsDirectoryResponse::ErrResp(_) => panic!("is_directory of a present dir must succeed"),
    }
    let (status, resp) = is_directory(&svc, &arg("/test886/test888"));
    assert_eq!(status, 200);
    match resp {
        IsDirectoryResponse::OkResp(ok) => assert!(!ok.success),
        IsDirectoryResponse::ErrResp(_) => panic!("is_directory of a present file must succeed"),
    }

    let (status, resp) = list_dir(&svc, &arg("/test886"));
    assert_eq!(status, 200);
    match resp {
        ListResponse::OkResp(ok) => {
            let mut files = ok.files.clone();
            files.sort();
            assert_eq!(files, vec!["test777".to_string(), "test888".to_string()]);
        },
        ListResponse::ErrResp(_) => panic!("list of a present dir must succeed"),
    }

    // Listing a regular file or an absent path fails.
    let (status, resp) = list_dir(&svc, &arg("/test886/test888"));
    assert_eq!(status, 404);
    assert!(matches!(resp, ListResponse::ErrResp(_)));
    let (status, resp) = list_dir(&svc, &arg("/test999"));
    assert_eq!(status, 404);
    match resp {
        ListResponse::ErrResp(e) => assert_eq!(e.exception_type, "FileNotFoundException"),
        ListResponse::OkResp(_) => panic!("list of an absent path must fail"),
    }
}

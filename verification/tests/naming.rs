//! Registration and path-validity checks across two storage nodes.

use tiny_dfs::registration::{register_storage_server, RegisterArg, RegisterResponse};
use tiny_dfs::service::{is_valid_path, NamingService, PathArg};

fn register(
    svc: &mut NamingService,
    ip: &str,
    client_port: u16,
    command_port: u16,
    files: &[&str],
) -> (u16, RegisterResponse) {
    let arg = RegisterArg {
        storage_ip: ip.to_string(),
        client_port,
        command_port,
        files: files.iter().map(|f| f.to_string()).collect(),
    };
    register_storage_server(svc, &arg)
}

#[test]
fn naming_test_valid_path() {
    let mut svc = NamingService::new();
    let (status, _) = register(&mut svc, "localhost", 11111, 22222, &["/test111"]);
    assert_eq!(status, 200);
    let (status, _) = register(&mut svc, "127.0.0.2", 33333, 44444, &[]);
    assert_eq!(status, 200);

    let (status, resp) = is_valid_path(&svc, &PathArg { path: "/test111".to_string() });
    assert_eq!(status, 200);
    assert!(resp.success);

    let (status, resp) = is_valid_path(&svc, &PathArg { path: "/test999".to_string() });
    assert_eq!(status, 200);
    assert!(!resp.success);
}

#[test]
fn register_reports_duplicates_only() {
    let mut svc = NamingService::new();
    let (status, resp) = register(&mut svc, "localhost", 11111, 22222, &["/a", "/b"]);
    assert_eq!(status, 200);
    match resp {
        RegisterResponse::OkResp(ok) => assert!(ok.files.is_empty()),
        RegisterResponse::ErrResp(_) => panic!("first registration must succeed"),
    }
    let (status, resp) = register(&mut svc, "127.0.0.2", 33333, 44444, &["/b", "/c"]);
    assert_eq!(status, 200);
    match resp {
        RegisterResponse::OkResp(ok) => assert_eq!(ok.files, vec!["/b".to_string()]),
        RegisterResponse::ErrResp(_) => panic!("second registration must succeed"),
    }
}

#[test]
fn duplicate_registration_rejected() {
    let mut svc = NamingService::new();
    let (status, _) = register(&mut svc, "localhost", 11111, 22222, &[]);
    assert_eq!(status, 200);
    assert_eq!(svc.servers.servers.len(), 1);
    // Same address, different ports: still a duplicate.
    let (status, resp) = register(&mut svc, "localhost", 33333, 44444, &[]);
    assert_eq!(status, 409);
    match resp {
        RegisterResponse::ErrResp(e) => {
            assert_eq!(e.exception_type, "IllegalStateException");
            assert_eq!(e.exception_info, "This storage client already registered.");
        },
        RegisterResponse::OkResp(_) => panic!("duplicate registration must fail"),
    }
    assert_eq!(svc.servers.servers.len(), 1);
}

use file_share::daemon::daemon::{apply_command, handle_daemon_message};
use file_share::daemon::protocol::{DaemonCommand, DaemonResponse};
use file_share::network::server::{FileEntry, Server};

fn entry(name: &str, path: &str) -> FileEntry {
    FileEntry { name: name.to_string(), path: path.to_string() }
}

fn sorted(mut listing: Vec<FileEntry>) -> Vec<(String, String)> {
    listing.sort_by(|a, b| a.name.cmp(&b.name));
    listing.into_iter().map(|e| (e.name, e.path)).collect()
}

#[test]
fn new_registry_is_empty() {
    let server = Server::new(None);
    assert!(server.list_files().is_empty());
    assert!(server.list_names().is_empty());
    assert_eq!(server.lookup("a"), None);
}

#[test]
fn add_then_lookup() {
    let mut server = Server::new(None);
    server.add_file("a".to_string(), "/tmp/a".to_string());
    assert_eq!(server.lookup("a"), Some("/tmp/a".to_string()));
    assert_eq!(server.lookup("b"), None);
    assert_eq!(server.list_files(), vec![entry("a", "/tmp/a")]);
}

#[test]
fn add_same_name_overwrites() {
    let mut server = Server::new(None);
    server.add_file("a".to_string(), "/one".to_string());
    server.add_file("b".to_string(), "/b".to_string());
    server.add_file("a".to_string(), "/two".to_string());
    assert_eq!(server.lookup("a"), Some("/two".to_string()));
    assert_eq!(
        sorted(server.list_files()),
        vec![("a".to_string(), "/two".to_string()), ("b".to_string(), "/b".to_string())]
    );
    assert_eq!(server.list_names().len(), 2);
}

#[test]
fn remove_absent_changes_nothing() {
    let mut server = Server::new(None);
    server.add_file("a".to_string(), "/a".to_string());
    server.add_file("b".to_string(), "/b".to_string());
    let before = server.list_files();
    server.remove_file("zzz");
    assert_eq!(server.list_files(), before);
}

#[test]
fn remove_present_drops_only_that_name() {
    let mut server = Server::new(None);
    server.add_file("a".to_string(), "/a".to_string());
    server.add_file("b".to_string(), "/b".to_string());
    server.add_file("c".to_string(), "/c".to_string());
    server.remove_file("b");
    assert_eq!(server.lookup("b"), None);
    assert_eq!(
        sorted(server.list_files()),
        vec![("a".to_string(), "/a".to_string()), ("c".to_string(), "/c".to_string())]
    );
}

#[test]
fn last_write_wins_over_a_run_of_changes() {
    let mut server = Server::new(None);
    server.add_file("x".to_string(), "/1".to_string());
    server.add_file("y".to_string(), "/2".to_string());
    server.remove_file("x");
    server.add_file("z".to_string(), "/3".to_string());
    server.add_file("y".to_string(), "/4".to_string());
    server.add_file("x".to_string(), "/5".to_string());
    server.remove_file("z");
    server.remove_file("never");
    assert_eq!(
        sorted(server.list_files()),
        vec![("x".to_string(), "/5".to_string()), ("y".to_string(), "/4".to_string())]
    );
}

#[test]
fn add_without_name_takes_last_path_segment() {
    let mut server = Server::new(None);
    let resp = handle_daemon_message(
        &mut server,
        DaemonCommand::Add { path: "/a/b/report.txt".to_string(), name: None },
    );
    assert_eq!(resp, DaemonResponse::Success("File added".to_string()));
    assert_eq!(server.list_files(), vec![entry("report.txt", "/a/b/report.txt")]);
}

#[test]
fn add_with_name_keeps_the_name() {
    let mut server = Server::new(None);
    let resp = handle_daemon_message(
        &mut server,
        DaemonCommand::Add { path: "/a/b/report.txt".to_string(), name: Some("r".to_string()) },
    );
    assert_eq!(resp, DaemonResponse::Success("File added".to_string()));
    assert_eq!(server.lookup("r"), Some("/a/b/report.txt".to_string()));
    assert_eq!(server.lookup("report.txt"), None);
}

#[test]
fn add_without_derivable_name_fails() {
    let mut server = Server::new(None);
    for path in ["/", "..", "/a/..", ""] {
        let resp = handle_daemon_message(
            &mut server,
            DaemonCommand::Add { path: path.to_string(), name: None },
        );
        assert_eq!(resp, DaemonResponse::Failure("Path has no file name".to_string()));
    }
    assert!(server.list_files().is_empty());
}

#[test]
fn add_derives_name_past_trailing_slash() {
    let mut server = Server::new(None);
    handle_daemon_message(&mut server, DaemonCommand::Add { path: "/a/b/".to_string(), name: None });
    assert_eq!(server.lookup("b"), Some("/a/b/".to_string()));
}

#[test]
fn apply_command_uses_the_derived_name_only_without_a_given_one() {
    let mut server = Server::new(None);
    apply_command(
        &mut server,
        DaemonCommand::Add { path: "/p".to_string(), name: Some("given".to_string()) },
        Some("derived".to_string()),
    );
    apply_command(
        &mut server,
        DaemonCommand::Add { path: "/q".to_string(), name: None },
        Some("derived".to_string()),
    );
    assert_eq!(server.lookup("given"), Some("/p".to_string()));
    assert_eq!(server.lookup("derived"), Some("/q".to_string()));
    let resp = apply_command(
        &mut server,
        DaemonCommand::Add { path: "/r".to_string(), name: None },
        None,
    );
    assert_eq!(resp, DaemonResponse::Failure("Path has no file name".to_string()));
    assert_eq!(server.list_names().len(), 2);
}

#[test]
fn delete_reports_success_with_the_name() {
    let mut server = Server::new(None);
    server.add_file("a.bin".to_string(), "/tmp/a.bin".to_string());
    let resp =
        handle_daemon_message(&mut server, DaemonCommand::Delete { name: "a.bin".to_string() });
    assert_eq!(resp, DaemonResponse::Success("File 'a.bin' deleted".to_string()));
    assert!(server.list_files().is_empty());
}

#[test]
fn delete_absent_reports_success_and_changes_nothing() {
    let mut server = Server::new(None);
    server.add_file("keep".to_string(), "/k".to_string());
    let resp =
        handle_daemon_message(&mut server, DaemonCommand::Delete { name: "gone".to_string() });
    assert_eq!(resp, DaemonResponse::Success("File 'gone' deleted".to_string()));
    assert_eq!(server.list_files(), vec![entry("keep", "/k")]);
}

#[test]
fn list_command_returns_every_entry() {
    let mut server = Server::new(None);
    server.add_file("a".to_string(), "/a".to_string());
    server.add_file("b".to_string(), "/b".to_string());
    match handle_daemon_message(&mut server, DaemonCommand::List) {
        DaemonResponse::List(listing) => assert_eq!(
            sorted(listing),
            vec![("a".to_string(), "/a".to_string()), ("b".to_string(), "/b".to_string())]
        ),
        other => panic!("unexpected response {:?}", other),
    }
}

#[test]
fn two_adds_of_one_name_resolve_to_the_later() {
    let first = DaemonCommand::Add { path: "/one/data.bin".to_string(), name: None };
    let second = DaemonCommand::Add { path: "/two/data.bin".to_string(), name: None };
    let mut server = Server::new(None);
    handle_daemon_message(&mut server, first.clone());
    handle_daemon_message(&mut server, second.clone());
    assert_eq!(server.list_files(), vec![entry("data.bin", "/two/data.bin")]);
    let mut other = Server::new(None);
    handle_daemon_message(&mut other, second);
    handle_daemon_message(&mut other, first);
    assert_eq!(other.list_files(), vec![entry("data.bin", "/one/data.bin")]);
}

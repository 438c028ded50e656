use jsonwebtoken::{encode, EncodingKey, Header};
use serde_json::Value;
use triox::config::{read_only_guard, Config};
use triox::error::{error_response, ServiceError};
use triox::files::{
    create_dir, created_response, get, list, move_entry, moved_response, partition_entries, EntryKind,
    Listing, RawEntry,
};
use triox::pages::{redirect, source_code};
use triox::response::Response;

const SECRET: &[u8] = b"a secret of the server";
const NOW: u64 = 1_700_000_000;

fn config(read_only: bool) -> Config {
    Config { jwt_secret: SECRET.to_vec(), read_only, data_root: "data".to_owned() }
}

fn token_of(id: u64, secret: &[u8], exp: u64) -> String {
    let mut claims = serde_json::Map::new();
    claims.insert("sub".to_owned(), Value::from("someusername"));
    claims.insert("id".to_owned(), Value::from(id));
    claims.insert("role".to_owned(), Value::from(1u64));
    claims.insert("exp".to_owned(), Value::from(exp));
    encode(&Header::default(), &Value::Object(claims), &EncodingKey::from_secret(secret)).unwrap()
}

fn header_of(id: u64) -> String {
    format!("Bearer {}", token_of(id, SECRET, NOW + 7200))
}

fn entry(kind: EntryKind, name: Option<&str>) -> RawEntry {
    RawEntry { kind, name: name.map(|n| n.to_owned()) }
}

fn text(status: u16, body: &str) -> Response {
    Response { status, body: body.to_owned(), location: None }
}

#[test]
fn wrong_secret_lists_nothing() {
    let header = format!("Bearer {}", token_of(0, b"not the server's secret", NOW + 7200));
    let error = list(&config(false), Some(&header), ".", NOW).unwrap_err();
    assert_eq!(error, ServiceError::Unauthenticated);
    assert_eq!(error_response(&error), text(401, "Invalid token"));
}

#[test]
fn get_refuses_parent_dir() {
    let error = get(&config(false), Some(&header_of(0)), "../secret.txt", NOW).unwrap_err();
    assert_eq!(error, ServiceError::PathTraversal);
    assert_eq!(error_response(&error), text(400, "Moving up directories is not allowed"));
}

#[test]
fn get_of_missing_file_reports_the_file_systems_words() {
    let target = get(&config(false), Some(&header_of(0)), "missing.txt", NOW).unwrap();
    assert_eq!(target.render("data"), "data/users/0/files/missing.txt");
    let words = std::io::Error::from_raw_os_error(2).to_string();
    let response = error_response(&ServiceError::Filesystem(words.clone()));
    assert_eq!(response, text(500, &words));
}

#[test]
fn get_hands_out_the_callers_file() {
    let target = get(&config(false), Some(&header_of(12)), "test_file", NOW).unwrap();
    assert_eq!(target.user_id(), 12);
    assert_eq!(target.render("data"), "data/users/12/files/test_file");
}

#[test]
fn create_dir_twice_decides_the_same() {
    let header = header_of(5);
    let first = create_dir(&config(false), Some(&header), "a/b/c", NOW).unwrap();
    assert_eq!(first.render("data"), "data/users/5/files/a/b/c");
    assert_eq!(created_response(), text(200, "directory successfully created!"));
    let second = create_dir(&config(false), Some(&header), "a/b/c", NOW).unwrap();
    assert_eq!(second, first);
    assert_eq!(created_response(), text(200, "directory successfully created!"));
}

#[test]
fn read_only_server_refuses_every_change() {
    let header = header_of(5);
    let read_only = config(true);
    for authorization in [Some(header.as_str()), Some("Bearer bad"), None] {
        for path in ["a/b/c", "../x", ""] {
            assert_eq!(
                create_dir(&read_only, authorization, path, NOW),
                Err(ServiceError::ReadOnlyViolation)
            );
            assert_eq!(
                move_entry(&read_only, authorization, path, "elsewhere", NOW),
                Err(ServiceError::ReadOnlyViolation)
            );
            assert_eq!(
                move_entry(&read_only, authorization, "somewhere", path, NOW),
                Err(ServiceError::ReadOnlyViolation)
            );
        }
    }
    assert_eq!(error_response(&ServiceError::ReadOnlyViolation), text(400, "server is read-only."));
}

#[test]
fn read_only_server_still_reads() {
    let header = header_of(5);
    for path in ["a/b/c", "", "x.txt"] {
        assert_eq!(
            list(&config(true), Some(&header), path, NOW),
            list(&config(false), Some(&header), path, NOW)
        );
        assert_eq!(
            get(&config(true), Some(&header), path, NOW),
            get(&config(false), Some(&header), path, NOW)
        );
        assert!(list(&config(true), Some(&header), path, NOW).is_ok());
    }
    assert_eq!(list(&config(true), None, "a", NOW), Err(ServiceError::Unauthenticated));
    assert_eq!(get(&config(true), Some(&header), "..", NOW), Err(ServiceError::PathTraversal));
}

#[test]
fn guard_reads_the_flag() {
    assert_eq!(read_only_guard(&config(false)), Ok(()));
    assert_eq!(read_only_guard(&config(true)), Err(ServiceError::ReadOnlyViolation));
}

#[test]
fn unauthenticated_requests_get_no_path() {
    let writable = config(false);
    let expired = format!("Bearer {}", token_of(1, SECRET, NOW - 1));
    for authorization in [None, Some("Basic abc"), Some("Bearer a.b.c"), Some(expired.as_str())] {
        assert_eq!(list(&writable, authorization, "a", NOW), Err(ServiceError::Unauthenticated));
        assert_eq!(get(&writable, authorization, "a", NOW), Err(ServiceError::Unauthenticated));
        assert_eq!(create_dir(&writable, authorization, "a", NOW), Err(ServiceError::Unauthenticated));
        assert_eq!(
            move_entry(&writable, authorization, "a", "b", NOW),
            Err(ServiceError::Unauthenticated)
        );
        // also where the path would be refused
        assert_eq!(get(&writable, authorization, "..", NOW), Err(ServiceError::Unauthenticated));
    }
}

#[test]
fn move_resolves_both_paths_for_the_caller() {
    let header = header_of(8);
    let plan = move_entry(&config(false), Some(&header), "old/name.txt", "/new/./name.txt", NOW).unwrap();
    assert_eq!(plan.source.render("data"), "data/users/8/files/old/name.txt");
    assert_eq!(plan.destination.render("data"), "data/users/8/files/new/name.txt");
    assert_eq!(plan.source.user_id(), plan.destination.user_id());
}

#[test]
fn move_refuses_parent_dir_on_either_side() {
    let header = header_of(8);
    assert_eq!(
        move_entry(&config(false), Some(&header), "../a", "b", NOW),
        Err(ServiceError::PathTraversal)
    );
    assert_eq!(
        move_entry(&config(false), Some(&header), "a", "b/../../c", NOW),
        Err(ServiceError::PathTraversal)
    );
    assert_eq!(
        move_entry(&config(false), Some(&header), "..", "..", NOW),
        Err(ServiceError::PathTraversal)
    );
}

#[test]
fn move_words_depend_on_what_was_moved() {
    assert_eq!(moved_response(true), text(200, "Directory successfully moved"));
    assert_eq!(moved_response(false), text(200, "File successfully moved"));
}

#[test]
fn entries_are_sorted_into_files_and_dirs_in_order() {
    let entries = vec![
        entry(EntryKind::File, Some("z.txt")),
        entry(EntryKind::Other, Some("photos")),
        entry(EntryKind::File, Some("a.txt")),
        entry(EntryKind::Other, Some("archive")),
        entry(EntryKind::File, Some("m.txt")),
    ];
    assert_eq!(
        partition_entries(&entries),
        Ok(Listing {
            files: vec!["z.txt".to_owned(), "a.txt".to_owned(), "m.txt".to_owned()],
            dirs: vec!["photos".to_owned(), "archive".to_owned()],
        })
    );
}

#[test]
fn empty_directory_lists_nothing() {
    assert_eq!(partition_entries(&Vec::new()), Ok(Listing { files: vec![], dirs: vec![] }));
}

#[test]
fn entry_without_valid_name_fails_the_listing() {
    let entries = vec![
        entry(EntryKind::File, Some("a.txt")),
        entry(EntryKind::Other, None),
        entry(EntryKind::File, Some("b.txt")),
    ];
    let error = partition_entries(&entries).unwrap_err();
    assert_eq!(error, ServiceError::Encoding);
    assert_eq!(error_response(&error), text(500, "String conversion failed"));
    assert_eq!(partition_entries(&vec![entry(EntryKind::File, None)]), Err(ServiceError::Encoding));
}

#[test]
fn entry_of_unknown_kind_fails_the_listing() {
    let entries = vec![
        entry(EntryKind::File, Some("a.txt")),
        entry(EntryKind::Unknown("Permission denied (os error 13)".to_owned()), Some("b")),
    ];
    let error = partition_entries(&entries).unwrap_err();
    assert_eq!(error, ServiceError::Filesystem("Permission denied (os error 13)".to_owned()));
    assert_eq!(error_response(&error), text(500, "Permission denied (os error 13)"));
}

#[test]
fn first_faulty_entry_decides() {
    let entries = vec![
        entry(EntryKind::Other, Some("ok")),
        entry(EntryKind::Unknown("first".to_owned()), None),
        entry(EntryKind::File, None),
        entry(EntryKind::Unknown("second".to_owned()), Some("x")),
    ];
    assert_eq!(partition_entries(&entries), Err(ServiceError::Filesystem("first".to_owned())));
    let entries = vec![
        entry(EntryKind::File, None),
        entry(EntryKind::Unknown("later".to_owned()), Some("x")),
    ];
    assert_eq!(partition_entries(&entries), Err(ServiceError::Encoding));
}

#[test]
fn every_failure_has_its_status_and_words() {
    assert_eq!(error_response(&ServiceError::Unauthenticated), text(401, "Invalid token"));
    assert_eq!(
        error_response(&ServiceError::PathTraversal),
        text(400, "Moving up directories is not allowed")
    );
    assert_eq!(error_response(&ServiceError::ReadOnlyViolation), text(400, "server is read-only."));
    assert_eq!(error_response(&ServiceError::Filesystem("disk full".to_owned())), text(500, "disk full"));
    assert_eq!(error_response(&ServiceError::Filesystem(String::new())), text(500, ""));
    assert_eq!(error_response(&ServiceError::Encoding), text(500, "String conversion failed"));
}

#[test]
fn entry_page_sends_signed_in_visitors_to_their_files() {
    let token = token_of(3, SECRET, NOW + 10);
    let found = redirect(Some(&token), SECRET, NOW);
    assert_eq!(
        found,
        Response { status: 302, body: String::new(), location: Some("/static/files.html".to_owned()) }
    );
}

#[test]
fn entry_page_sends_everyone_else_to_sign_in() {
    let sign_in =
        Response { status: 302, body: String::new(), location: Some("/sign_in".to_owned()) };
    assert_eq!(redirect(None, SECRET, NOW), sign_in);
    assert_eq!(redirect(Some("invalidjwt"), SECRET, NOW), sign_in);
    let expired = token_of(3, SECRET, NOW - 10);
    assert_eq!(redirect(Some(&expired), SECRET, NOW), sign_in);
    let foreign = token_of(3, b"someone else", NOW + 10);
    assert_eq!(redirect(Some(&foreign), SECRET, NOW), sign_in);
}

#[test]
fn source_is_published_elsewhere() {
    assert_eq!(
        source_code(),
        Response {
            status: 303,
            body: String::new(),
            location: Some("https://github.com/AaronErhardt/Triox".to_owned()),
        }
    );
}

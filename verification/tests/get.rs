use jsonwebtoken::{encode, EncodingKey, Header};
use serde_json::Value;
use std::time::{SystemTime, UNIX_EPOCH};
use triox::config::Config;
use triox::error::{error_response, ServiceError};
use triox::files::get;

fn default_app_state() -> Config {
    Config {
        jwt_secret: b"some-signing-secret".to_vec(),
        read_only: false,
        data_root: "./data".to_owned(),
    }
}

fn time_now() -> u64 {
    SystemTime::now().duration_since(UNIX_EPOCH).expect("Time went backwards").as_secs()
}

fn get_jwt(app_state: &Config) -> String {
    let mut claims = serde_json::Map::new();
    claims.insert("sub".to_owned(), Value::from("someusername"));
    claims.insert("id".to_owned(), Value::from(0u64));
    claims.insert("role".to_owned(), Value::from(1u64));
    // now + two hours
    claims.insert("exp".to_owned(), Value::from(time_now() + 7200));
    encode(
        &Header::default(),
        &Value::Object(claims),
        &EncodingKey::from_secret(&app_state.jwt_secret),
    )
    .unwrap()
}

#[test]
fn verification_fails() {
    let app_state = default_app_state();

    let outcome = get(&app_state, Some("Bearerinvalidjwt"), "fakefile.txt", time_now());
    let error = outcome.unwrap_err();
    assert_eq!(error, ServiceError::Unauthenticated);

    let response = error_response(&error);
    assert_eq!(response.status, 401);
    assert_eq!(response.body, "Invalid token");
}

#[test]
fn file_doesnt_exist() {
    let app_state = default_app_state();
    let jwt = get_jwt(&app_state);

    let outcome = get(&app_state, Some(&format!("Bearer{}", jwt)), "fakefile.txt", time_now());
    let target = outcome.unwrap();
    assert_eq!(target.render(&app_state.data_root), "./data/users/0/files/fakefile.txt");

    // what the file system answers when the file is opened
    let missing = std::io::Error::from_raw_os_error(2);
    let response = error_response(&ServiceError::Filesystem(missing.to_string()));
    assert_eq!(response.status, 500);
    assert_eq!(response.body, "No such file or directory (os error 2)");
}

#[test]
fn move_up_directory() {
    let app_state = default_app_state();
    let jwt = get_jwt(&app_state);

    let outcome = get(&app_state, Some(&format!("Bearer{}", jwt)), "../fakefile.txt", time_now());
    let error = outcome.unwrap_err();
    assert_eq!(error, ServiceError::PathTraversal);

    let response = error_response(&error);
    assert_eq!(response.status, 400);
    assert_eq!(response.body, "Moving up directories is not allowed");
}

#[test]
fn ok_case() {
    let app_state = default_app_state();
    let jwt = get_jwt(&app_state);

    let outcome = get(&app_state, Some(&format!("Bearer{}", jwt)), "test_file", time_now());
    let target = outcome.unwrap();
    assert_eq!(target.user_id(), 0);
    assert_eq!(target.render(&app_state.data_root), format!("./data/users/{}/files/test_file", 0));
}

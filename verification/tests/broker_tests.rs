use sanzu::broker::{authenticated_user, SecondFactor, UserError, callback_args, replace_source, TOKEN_CLIENT_ADDR, TOKEN_UNIX_SOCKET_PATH, TOKEN_USERNAME};

#[test]
fn tokens_are_replaced_whole() {
    let args: Vec<String> = ["-u", TOKEN_USERNAME, "--addr", TOKEN_CLIENT_ADDR, "x%USERNAME%"]
        .iter()
        .map(|s| s.to_string())
        .collect();
    let args = replace_source(&args, TOKEN_USERNAME, "alice");
    assert_eq!(args, vec!["-u", "alice", "--addr", TOKEN_CLIENT_ADDR, "x%USERNAME%"]);
    let args = replace_source(&args, TOKEN_CLIENT_ADDR, "10.0.0.1");
    assert_eq!(args, vec!["-u", "alice", "--addr", "10.0.0.1", "x%USERNAME%"]);
}

#[test]
fn every_occurrence_is_replaced() {
    let args: Vec<String> = vec![TOKEN_UNIX_SOCKET_PATH.to_owned(), TOKEN_UNIX_SOCKET_PATH.to_owned()];
    assert_eq!(replace_source(&args, TOKEN_UNIX_SOCKET_PATH, "/tmp/s"), vec!["/tmp/s", "/tmp/s"]);
    assert!(replace_source(&[], TOKEN_USERNAME, "bob").is_empty());
}

#[test]
fn connect_callback_arguments() {
    let args: Vec<String> = ["--user", TOKEN_USERNAME, "--from", TOKEN_CLIENT_ADDR, "-s", TOKEN_UNIX_SOCKET_PATH]
        .iter()
        .map(|s| s.to_string())
        .collect();
    let out = callback_args(&args, "bob", "10.1.2.3:4444", "/tmp/video_x");
    assert_eq!(out, vec!["--user", "bob", "--from", "10.1.2.3:4444", "-s", "/tmp/video_x"]);
    // replacements are made in order: a user name that is itself a later token is replaced again
    let out = callback_args(&args[0..2], TOKEN_CLIENT_ADDR, "addr", "path");
    assert_eq!(out, vec!["--user", "addr"]);
}

#[test]
fn kerberos_user_must_match_certificate() {
    assert_eq!(
        authenticated_user(Some("alice".to_string()), SecondFactor::Kerberos("alice".to_string())),
        Ok("alice".to_string())
    );
    assert_eq!(
        authenticated_user(Some("alice".to_string()), SecondFactor::Kerberos("bob".to_string())),
        Err(UserError::UsernameMismatch)
    );
    assert_eq!(authenticated_user(None, SecondFactor::Kerberos("bob".to_string())), Ok("bob".to_string()));
}

#[test]
fn pam_user_stands_and_certificate_alone_suffices() {
    assert_eq!(
        authenticated_user(Some("alice".to_string()), SecondFactor::Pam("carol".to_string())),
        Ok("carol".to_string())
    );
    assert_eq!(authenticated_user(Some("alice".to_string()), SecondFactor::Skipped), Ok("alice".to_string()));
    assert_eq!(authenticated_user(None, SecondFactor::Skipped), Err(UserError::NoUsername));
}

//! Credential decisions for transport challenges, and error construction.

use tagger::{credential_decision, remote_connect_error, CredChoice, TaggerError};

#[test]
fn username_challenge_answers_with_the_hint() {
    match credential_decision(Some("alice"), true, Some("/home/alice")) {
        CredChoice::Username { user } => assert_eq!(user, "alice"),
        CredChoice::SshKey { .. } => panic!("expected a username credential"),
    }
}

#[test]
fn username_challenge_defaults_to_git() {
    match credential_decision(None, true, None) {
        CredChoice::Username { user } => assert_eq!(user, "git"),
        CredChoice::SshKey { .. } => panic!("expected a username credential"),
    }
}

#[test]
fn key_challenge_uses_the_home_ssh_key() {
    match credential_decision(Some("bob"), false, Some("/home/bob")) {
        CredChoice::SshKey { user, key_path } => {
            assert_eq!(user, "bob");
            assert_eq!(key_path, "/home/bob/.ssh/id_rsa");
        },
        CredChoice::Username { .. } => panic!("expected a key credential"),
    }
}

#[test]
fn key_challenge_without_home_falls_back_to_relative_path() {
    match credential_decision(None, false, None) {
        CredChoice::SshKey { user, key_path } => {
            assert_eq!(user, "git");
            assert_eq!(key_path, ".ssh/id_rsa");
        },
        CredChoice::Username { .. } => panic!("expected a key credential"),
    }
    match credential_decision(None, false, Some("")) {
        CredChoice::SshKey { key_path, .. } => assert_eq!(key_path, ".ssh/id_rsa"),
        CredChoice::Username { .. } => panic!("expected a key credential"),
    }
}

#[test]
fn key_path_does_not_double_a_trailing_slash() {
    match credential_decision(None, false, Some("/home/carol/")) {
        CredChoice::SshKey { key_path, .. } => assert_eq!(key_path, "/home/carol/.ssh/id_rsa"),
        CredChoice::Username { .. } => panic!("expected a key credential"),
    }
}

#[test]
fn errors_carry_their_message() {
    let e = TaggerError::new("repo demo does not have any valid tags");
    assert_eq!(e.message(), "repo demo does not have any valid tags");
}

#[test]
fn connection_failure_embeds_the_transport_diagnostic() {
    let e = remote_connect_error("authentication failed: bad key");
    assert_eq!(e.message(), "cannot connect to remote\nauthentication failed: bad key");
    assert!(e.message().contains("bad key"));
}

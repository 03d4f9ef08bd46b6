use update_version::credentials::{
    certificate_decision, next_source, user_name, AllowedTypes, AuthenticationExhausted,
    CertificateDecision, CredentialNegotiator, CredentialSource, KeyFile, MAX_ATTEMPTS,
};

fn order(allowed: &AllowedTypes) -> Vec<CredentialSource> {
    let mut tried = Vec::new();
    let mut last = None;
    while let Some(source) = next_source(allowed, last) {
        tried.push(source);
        last = Some(source);
        assert!(tried.len() <= 6);
    }
    tried
}

#[test]
fn sources_are_tried_in_their_fixed_order() {
    let all = AllowedTypes { ssh_key: true, user_pass_plaintext: true, default: true };
    assert_eq!(
        order(&all),
        vec![
            CredentialSource::SshAgent,
            CredentialSource::Key(KeyFile::Ed25519),
            CredentialSource::Key(KeyFile::Rsa),
            CredentialSource::Key(KeyFile::Ecdsa),
            CredentialSource::Helper,
            CredentialSource::Default,
        ]
    );
}

#[test]
fn only_sources_that_the_remote_accepts_are_tried() {
    let https = AllowedTypes { ssh_key: false, user_pass_plaintext: true, default: false };
    assert_eq!(order(&https), vec![CredentialSource::Helper]);

    let ssh = AllowedTypes { ssh_key: true, user_pass_plaintext: false, default: false };
    assert_eq!(
        order(&ssh),
        vec![
            CredentialSource::SshAgent,
            CredentialSource::Key(KeyFile::Ed25519),
            CredentialSource::Key(KeyFile::Rsa),
            CredentialSource::Key(KeyFile::Ecdsa),
        ]
    );

    let default_only = AllowedTypes { ssh_key: false, user_pass_plaintext: false, default: true };
    assert_eq!(order(&default_only), vec![CredentialSource::Default]);

    let nothing = AllowedTypes { ssh_key: false, user_pass_plaintext: false, default: false };
    assert_eq!(next_source(&nothing, None), None);
}

#[test]
fn after_the_last_source_none_is_left() {
    let all = AllowedTypes { ssh_key: true, user_pass_plaintext: true, default: true };
    assert_eq!(next_source(&all, Some(CredentialSource::Default)), None);
    let ssh = AllowedTypes { ssh_key: true, user_pass_plaintext: false, default: false };
    assert_eq!(next_source(&ssh, Some(CredentialSource::Key(KeyFile::Ecdsa))), None);
    assert_eq!(
        next_source(&all, Some(CredentialSource::Key(KeyFile::Ecdsa))),
        Some(CredentialSource::Helper)
    );
}

#[test]
fn key_files_have_their_conventional_names() {
    assert_eq!(KeyFile::Ed25519.file_name(), "id_ed25519");
    assert_eq!(KeyFile::Rsa.file_name(), "id_rsa");
    assert_eq!(KeyFile::Ecdsa.file_name(), "id_ecdsa");
    assert_eq!(KeyFile::Ed25519.public_file_name(), "id_ed25519.pub");
    assert_eq!(KeyFile::Rsa.public_file_name(), "id_rsa.pub");
    assert_eq!(KeyFile::Ecdsa.public_file_name(), "id_ecdsa.pub");
}

#[test]
fn the_sixth_attempt_is_refused() {
    assert_eq!(MAX_ATTEMPTS, 5);
    let mut negotiator = CredentialNegotiator::new();
    assert_eq!(negotiator.attempts(), 0);
    for attempt in 1..=5 {
        assert_eq!(negotiator.begin_attempt(), Ok(attempt));
        assert_eq!(negotiator.attempts(), attempt);
    }
    assert_eq!(negotiator.begin_attempt(), Err(AuthenticationExhausted { attempts: 5 }));
    assert_eq!(negotiator.begin_attempt(), Err(AuthenticationExhausted { attempts: 5 }));
    assert_eq!(negotiator.attempts(), 5);
}

#[test]
fn the_user_name_defaults_to_git() {
    assert_eq!(user_name(Some("deploy")), "deploy");
    assert_eq!(user_name(None), "git");
    assert_eq!(user_name(Some("")), "");
}

#[test]
fn certificates_are_accepted_unseen_only_on_request() {
    assert_eq!(certificate_decision(true), CertificateDecision::Accept);
    assert_eq!(certificate_decision(false), CertificateDecision::Validate);
}

use base64::engine::general_purpose::STANDARD;
use base64::Engine;
use cratebay_core::docker_auth::{
    credential_from_helper, credential_helper_program, decode_auth_payload, decode_docker_auth, docker_config_path, find_registry_key,
    use_auth_config_env,
    normalize_registry_key, registry_host_from_image_reference, resolve_from_config,
    AuthResolution, DockerAuthEntry, DockerConfigFile,
};

fn auth_entry(auth: &str) -> DockerAuthEntry {
    DockerAuthEntry {
        auth: Some(auth.to_string()),
        ..DockerAuthEntry::default()
    }
}

#[test]
fn normalize_registry_key_strips_scheme_and_path() {
    assert_eq!(
        normalize_registry_key("https://index.docker.io/v1/"),
        "index.docker.io"
    );
    assert_eq!(normalize_registry_key("ghcr.io"), "ghcr.io");
    assert_eq!(
        normalize_registry_key("http://localhost:5000/"),
        "localhost:5000"
    );
}

#[test]
fn registry_host_from_image_reference_detects_custom_registry() {
    assert_eq!(
        registry_host_from_image_reference("ghcr.io/org/image:v1").as_deref(),
        Some("ghcr.io")
    );
    assert_eq!(
        registry_host_from_image_reference("localhost:5000/myimg:latest").as_deref(),
        Some("localhost:5000")
    );
    assert_eq!(registry_host_from_image_reference("nginx:latest"), None);
}

#[test]
fn decode_docker_auth_decodes_user_pass() {
    let encoded = STANDARD.encode("user:pass");
    let (u, p) = decode_docker_auth(&encoded).unwrap();
    assert_eq!(u, "user");
    assert_eq!(p, "pass");
}

#[test]
fn resolve_from_config_prefers_auth_entry() {
    let cfg = DockerConfigFile {
        auths: Some(vec![
            (
                "https://index.docker.io/v1/".to_string(),
                auth_entry("dXNlcjpwYXNz"),
            ),
            ("ghcr.io".to_string(), auth_entry("b2N0bzp0b2tlbg==")),
        ]),
        creds_store: None,
        cred_helpers: None,
    };
    let auth = match resolve_from_config(&cfg, "nginx:latest").unwrap() {
        AuthResolution::Found(a) => a,
        other => panic!("unexpected resolution: {:?}", other),
    };
    assert_eq!(auth.server_address, "https://index.docker.io/v1/");
    assert_eq!(auth.username.as_deref(), Some("user"));
    assert_eq!(auth.password.as_deref(), Some("pass"));

    let auth = match resolve_from_config(&cfg, "ghcr.io/org/image:v1").unwrap() {
        AuthResolution::Found(a) => a,
        other => panic!("unexpected resolution: {:?}", other),
    };
    assert_eq!(auth.server_address, "ghcr.io");
    assert_eq!(auth.username.as_deref(), Some("octo"));
    assert_eq!(auth.password.as_deref(), Some("token"));
}

#[test]
fn decode_docker_auth_rejects_invalid_base64() {
    let err = decode_docker_auth("not base64!").unwrap_err();
    assert!(err.starts_with("Invalid base64 auth: "), "{}", err);
}

#[test]
fn decode_docker_auth_rejects_missing_separator() {
    let encoded = STANDARD.encode("userpass");
    let err = decode_docker_auth(&encoded).unwrap_err();
    assert_eq!(err, "Invalid auth payload (expected username:password)");
}

#[test]
fn decode_docker_auth_splits_at_first_colon() {
    let encoded = STANDARD.encode("user:pa:ss");
    let (u, p) = decode_docker_auth(&encoded).unwrap();
    assert_eq!(u, "user");
    assert_eq!(p, "pa:ss");
}

#[test]
fn identity_token_wins_over_password() {
    let entry = DockerAuthEntry {
        auth: Some("dXNlcjpwYXNz".to_string()),
        username: Some("u".to_string()),
        password: Some("p".to_string()),
        identity_token: Some("tok".to_string()),
    };
    let cfg = DockerConfigFile {
        auths: Some(vec![("ghcr.io".to_string(), entry)]),
        creds_store: None,
        cred_helpers: None,
    };
    match resolve_from_config(&cfg, "ghcr.io/a/b").unwrap() {
        AuthResolution::Found(a) => {
            assert_eq!(a.identity_token.as_deref(), Some("tok"));
            assert_eq!(a.username, None);
            assert_eq!(a.password, None);
        }
        other => panic!("unexpected resolution: {:?}", other),
    }
}

#[test]
fn credential_helper_is_used_without_auth_entry() {
    let cfg = DockerConfigFile {
        auths: None,
        creds_store: Some("desktop".to_string()),
        cred_helpers: Some(vec![("ghcr.io".to_string(), "gh".to_string())]),
    };
    match resolve_from_config(&cfg, "ghcr.io/a/b").unwrap() {
        AuthResolution::RunHelper { helper, server } => {
            assert_eq!(helper, "gh");
            assert_eq!(server, "ghcr.io");
        }
        other => panic!("unexpected resolution: {:?}", other),
    }
    match resolve_from_config(&cfg, "nginx").unwrap() {
        AuthResolution::RunHelper { helper, server } => {
            assert_eq!(helper, "desktop");
            assert_eq!(server, "https://index.docker.io/v1/");
        }
        other => panic!("unexpected resolution: {:?}", other),
    }
}

#[test]
fn empty_config_is_not_configured() {
    let cfg = DockerConfigFile::default();
    assert!(matches!(
        resolve_from_config(&cfg, "nginx").unwrap(),
        AuthResolution::NotConfigured
    ));
}

#[test]
fn dockerhub_keys_match_dockerhub_images() {
    let pairs = vec![
        ("quay.io".to_string(), 1u8),
        ("https://index.docker.io/v1/".to_string(), 2u8),
    ];
    assert_eq!(find_registry_key(&pairs, None), Some(1));
    assert_eq!(find_registry_key(&pairs, Some("quay.io")), Some(0));
    assert_eq!(find_registry_key(&pairs, Some("ghcr.io")), None);
}

#[test]
fn credential_helper_answers() {
    assert_eq!(credential_helper_program("osxkeychain"), "docker-credential-osxkeychain");
    let a = credential_from_helper("gh", "ghcr.io", " octo ", "tok").unwrap();
    assert_eq!(a.server_address, "ghcr.io");
    assert_eq!(a.username.as_deref(), Some("octo"));
    assert_eq!(a.password.as_deref(), Some("tok"));
    let err = credential_from_helper("gh", "ghcr.io", "", "tok").unwrap_err();
    assert_eq!(err, "docker-credential-gh returned empty credentials");
}

#[test]
fn docker_config_file_location() {
    assert_eq!(docker_config_path(Some("/cfg"), Some("/home/u"), None, None, None), Some("/cfg/config.json".to_string()));
    assert_eq!(docker_config_path(None, Some("/home/u"), None, None, None), Some("/home/u/.docker/config.json".to_string()));
    assert_eq!(
        docker_config_path(None, None, Some("C:/Users/u"), None, None),
        Some("C:/Users/u/.docker/config.json".to_string())
    );
    assert_eq!(docker_config_path(None, None, None, Some("C:"), Some("/Users/u")), Some("C:/Users/u/.docker/config.json".to_string()));
    assert_eq!(docker_config_path(None, None, None, Some("C:"), None), None);
}

#[test]
fn auth_config_variable_is_used_when_not_blank() {
    assert!(use_auth_config_env(Some("{\"auths\":{}}")));
    assert!(!use_auth_config_env(Some("  ")));
    assert!(!use_auth_config_env(None));
}

#[test]
fn auth_payload_splits_at_the_first_colon() {
    assert_eq!(decode_auth_payload(b"user:pa:ss".to_vec()), Ok(("user".to_string(), "pa:ss".to_string())));
    assert_eq!(
        decode_auth_payload(b"nocolon".to_vec()),
        Err("Invalid auth payload (expected username:password)".to_string())
    );
    assert!(decode_auth_payload(vec![0xff, 0x3a]).unwrap_err().starts_with("Invalid auth encoding: "));
}

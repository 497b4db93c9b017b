use dgraph_cli::config::{prompt_line, read_answer, Config, Scaffold, Stage};
use dgraph_cli::file::{check_path, existence_result, file_exists_validator, note_for};
use dgraph_cli::target::{tls_paths, Certificates, ConnectionTarget, TlsArgError, TlsPaths};

fn s(v: &str) -> Option<String> {
    Some(v.to_string())
}

#[test]
fn tls_paths_none_or_all() {
    assert!(matches!(tls_paths(None, None, None), Ok(None)));
    match tls_paths(s("ca"), s("cert"), s("key")) {
        Ok(Some(p)) => {
            assert_eq!(p.root_ca, "ca");
            assert_eq!(p.cert, "cert");
            assert_eq!(p.private_key, "key");
        }
        _ => panic!("all three paths must be accepted"),
    }
}

#[test]
fn tls_paths_partial_is_rejected() {
    let cases = vec![
        (s("ca"), None, None),
        (None, s("cert"), None),
        (None, None, s("key")),
        (s("ca"), s("cert"), None),
        (s("ca"), None, s("key")),
        (None, s("cert"), s("key")),
    ];
    for (a, b, c) in cases {
        assert!(matches!(tls_paths(a, b, c), Err(TlsArgError::Incomplete)));
    }
    assert_eq!(
        TlsArgError::Incomplete.message(),
        "--root_ca, --cert and --private_key must be given together."
    );
}

#[test]
fn connection_target_follows_bundle() {
    let t = ConnectionTarget::new("localhost:9080".to_string(), None);
    assert!(matches!(t, ConnectionTarget::Plaintext { .. }));
    assert_eq!(t.url(), "localhost:9080");
    let certs = Certificates { root_ca: vec![1], cert: vec![2], private_key: vec![3] };
    let t = ConnectionTarget::new("db:443".to_string(), Some(certs));
    match &t {
        ConnectionTarget::Secured { certs, .. } => {
            assert_eq!(certs.root_ca, vec![1]);
            assert_eq!(certs.cert, vec![2]);
            assert_eq!(certs.private_key, vec![3]);
        }
        _ => panic!("a bundle gives a secured target"),
    }
    assert_eq!(t.url(), "db:443");
}

#[test]
fn validator_names_missing_file() {
    assert_eq!(
        file_exists_validator("/no/such/dir/ca.pem".to_string()),
        Err("File /no/such/dir/ca.pem does not exist.".to_string())
    );
    assert_eq!(file_exists_validator("/".to_string()), Ok(()));
    assert_eq!(existence_result("a.pem", true), Ok(()));
    assert_eq!(existence_result("a.pem", false), Err("File a.pem does not exist.".to_string()));
}

#[test]
fn notes_for_missing_config_paths() {
    assert_eq!(
        check_path("/no/such/key.pem"),
        Some("Note that path /no/such/key.pem doesn't exist.".to_string())
    );
    assert_eq!(check_path("/"), None);
    assert_eq!(note_for("k", true), None);
    assert_eq!(note_for("k", false), Some("Note that path k doesn't exist.".to_string()));
}

#[test]
fn plain_config_has_url_only() {
    let c = Config { url: "localhost:9080".to_string(), tls: None };
    assert_eq!(c.to_toml(), "url = \"localhost:9080\"\n");
}

#[test]
fn secure_config_has_four_keys() {
    let c = Config {
        url: "db:9080".to_string(),
        tls: Some(TlsPaths {
            root_ca: "/certs/ca.crt".to_string(),
            cert: "/certs/client.crt".to_string(),
            private_key: "/certs/client.key".to_string(),
        }),
    };
    assert_eq!(
        c.to_toml(),
        "url = \"db:9080\"\nroot_ca_path = \"/certs/ca.crt\"\ncert_path = \"/certs/client.crt\"\nprivate_key_path = \"/certs/client.key\"\n"
    );
}

#[test]
fn toml_values_are_quoted_by_content() {
    let c = Config { url: "a\"b".to_string(), tls: None };
    assert_eq!(c.to_toml(), "url = 'a\"b'\n");
}

#[test]
fn prompts_show_defaults() {
    assert_eq!(prompt_line("Dgraph URL", Some("localhost:9080")), "Dgraph URL (localhost:9080): ");
    assert_eq!(prompt_line("Root CA", None), "Root CA: ");
    let sc = Scaffold::new();
    assert_eq!(sc.prompt(), "Dgraph URL (localhost:9080): ");
}

#[test]
fn answers_from_lines() {
    assert_eq!(read_answer("db:1\n", Some("d")), Some("db:1".to_string()));
    assert_eq!(read_answer("\n", Some("d")), Some("d".to_string()));
    assert_eq!(read_answer("\n", None), None);
    assert_eq!(read_answer("", None), Some(String::new()));
    assert_eq!(read_answer("", Some("d")), Some("d".to_string()));
    assert_eq!(read_answer("last", None), Some("last".to_string()));
}

#[test]
fn scaffold_plain_round_trip() {
    let mut sc = Scaffold::new();
    assert!(sc.advance("\n").config.is_none());
    assert_eq!(sc.stage, Stage::Secure);
    assert_eq!(sc.prompt(), "Is secure connection? [y/n] (y): ");
    let done = sc.advance("n\n");
    let config = done.config.unwrap();
    assert!(done.note.is_none());
    assert_eq!(sc.stage, Stage::Finished);
    assert_eq!(config.to_toml(), "url = \"localhost:9080\"\n");
}

#[test]
fn scaffold_secure_round_trip() {
    let mut sc = Scaffold::new();
    sc.advance("db:9080\n");
    sc.advance("\n");
    assert_eq!(sc.stage, Stage::RootCa);
    assert!(sc.advance("\n").config.is_none());
    assert_eq!(sc.stage, Stage::RootCa);
    let p = sc.advance("/no/such/ca.crt\n");
    assert_eq!(p.note, Some("Note that path /no/such/ca.crt doesn't exist.".to_string()));
    sc.advance("/no/such/client.crt\n");
    let done = sc.advance("/no/such/client.key\n");
    let config = done.config.unwrap();
    assert_eq!(
        config.to_toml(),
        "url = \"db:9080\"\nroot_ca_path = \"/no/such/ca.crt\"\ncert_path = \"/no/such/client.crt\"\nprivate_key_path = \"/no/such/client.key\"\n"
    );
}

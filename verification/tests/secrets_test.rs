use age::x25519;
use base64::Engine;
use claude_chat::secrets::mcp_server::{GetSecretAction, SecretsVaultServer};
use claude_chat::secrets::vault::{Policy, PolicyError, SecretAccess, Vault};

const ROOT: &str = "/srv/agent-vault";

fn setup_policy() -> Policy {
    let mut policy = Policy::new();
    policy.insert_agent("nixos".to_string(), vec!["github-token".to_string()]);
    policy.insert_agent(
        "chat-bot".to_string(),
        vec!["github-token".to_string(), "npm-token".to_string()],
    );
    policy
}

fn setup_vault() -> Vault {
    Vault::new(ROOT, setup_policy())
}

/// What reading `secret` as `agent` gives when the vault holds two files:
/// `github-token` and `npm-token`.
fn read_secret(vault: &Vault, agent: &str, secret: &str) -> Result<String, PolicyError> {
    let path = vault.authorize_read(agent, secret)?;
    let content = match path.as_str() {
        "/srv/agent-vault/vault/github-token" => Some("ghp_test123\n".to_string()),
        "/srv/agent-vault/vault/npm-token" => Some("npm_test456\n".to_string()),
        _ => None,
    };
    Vault::secret_content(secret, content)
}

#[test]
fn grants_access_to_allowed_secret() {
    let vault = setup_vault();
    let result = read_secret(&vault, "nixos", "github-token");
    assert!(result.is_ok());
    assert!(result.unwrap().contains("ghp_test123"));
}

#[test]
fn denies_access_to_forbidden_secret() {
    let vault = setup_vault();
    let result = read_secret(&vault, "nixos", "npm-token");
    assert!(matches!(result, Err(PolicyError::Denied { .. })));
}

#[test]
fn denies_access_for_unknown_agent() {
    let vault = setup_vault();
    let result = read_secret(&vault, "unknown-agent", "github-token");
    assert!(matches!(result, Err(PolicyError::Denied { .. })));
}

#[test]
fn denies_nonexistent_secret() {
    let vault = setup_vault();
    let result = read_secret(&vault, "chat-bot", "nonexistent");
    assert!(result.is_err());
}

#[test]
fn missing_file_of_allowed_secret_is_not_found() {
    let mut policy = setup_policy();
    policy.insert_agent("ops".to_string(), vec!["gone".to_string()]);
    let vault = Vault::new(ROOT, policy);
    let result = read_secret(&vault, "ops", "gone");
    match result {
        Err(e) => {
            assert!(matches!(&e, PolicyError::NotFound(name) if name == "gone"));
            assert_eq!(e.message(), "secret not found: 'gone'");
        }
        Ok(_) => panic!("expected NotFound"),
    }
}

#[test]
fn denial_names_agent_and_secret() {
    let vault = setup_vault();
    let e = vault.check_access("nixos", "npm-token").unwrap_err();
    assert_eq!(e.message(), "access denied: agent 'nixos' cannot read 'npm-token'");
    assert!(vault.check_access("chat-bot", "npm-token").is_ok());
}

#[test]
fn later_entry_for_an_agent_replaces_earlier_one() {
    let mut policy = setup_policy();
    policy.insert_agent("nixos".to_string(), vec!["npm-token".to_string()]);
    assert!(policy.allows("nixos", "npm-token"));
    assert!(!policy.allows("nixos", "github-token"));
    assert_eq!(policy.allowed_secrets("nixos").unwrap(), &vec!["npm-token".to_string()]);
    assert!(policy.allowed_secrets("nobody").is_none());
}

#[test]
fn paths_follow_the_vault_layout() {
    let vault = setup_vault();
    assert_eq!(vault.secret_path("github-token"), "/srv/agent-vault/vault/github-token");
    assert_eq!(vault.public_key_path("nixos"), "/srv/agent-vault/keys/nixos.pub");
    let slashed = Vault::new("/srv/v/", Policy::new());
    assert_eq!(slashed.secret_path("a"), "/srv/v/vault/a");
    assert_eq!(slashed.secret_path("/etc/passwd"), "/etc/passwd");
    let relative = Vault::new("", Policy::new());
    assert_eq!(relative.secret_path("a"), "vault/a");
}

#[test]
fn public_key_file_is_trimmed() {
    assert_eq!(Vault::public_key_from_file("  age1abc \n"), "age1abc");
    assert_eq!(Vault::public_key_from_file("\u{3000}age1 x\t"), "age1 x");
    assert_eq!(Vault::public_key_from_file(" \n "), "");
}

// --- MCP Server tests ---

fn setup_server(agent: &str) -> SecretsVaultServer {
    SecretsVaultServer::new(setup_vault(), agent)
}

#[test]
fn mcp_server_builds_without_panic() {
    let server = setup_server("nixos");
    assert_eq!(server.agent_name(), "nixos");
}

/// Runs a request for `name` through the server, performing each action as
/// a vault holding `github-token` and `npm-token` would, with `encrypt` for
/// encryption.
fn get_secret(
    server: &SecretsVaultServer,
    name: &str,
    key_file: Result<String, String>,
    encrypt: impl Fn(&str, &str) -> Result<Vec<u8>, String>,
) -> Result<String, String> {
    let mut action = server.start_get_secret(name);
    loop {
        action = match action {
            GetSecretAction::ReadSecret { path } => {
                let content = match path.as_str() {
                    "/srv/agent-vault/vault/github-token" => Some("ghp_test123\n".to_string()),
                    "/srv/agent-vault/vault/npm-token" => Some("npm_test456\n".to_string()),
                    _ => None,
                };
                server.after_secret_read(name, content)
            }
            GetSecretAction::ReadPublicKey { path, plaintext } => {
                assert_eq!(path, "/srv/agent-vault/keys/nixos.pub");
                server.after_public_key_read(plaintext, key_file.clone())
            }
            GetSecretAction::Encrypt { plaintext, public_key } => {
                SecretsVaultServer::after_encryption(encrypt(&plaintext, &public_key))
            }
            GetSecretAction::Reply(reply) => return reply,
        }
    }
}

#[test]
fn mcp_server_handles_get_secret_with_encryption() {
    let identity = x25519::Identity::generate();
    let pubkey = identity.to_public();
    let key_file = format!("{}\n", pubkey);

    let server = setup_server("nixos");
    let result = get_secret(&server, "github-token", Ok(key_file), |plaintext, key| {
        let recipient: x25519::Recipient = key.parse().map_err(|e: &str| e.to_string())?;
        age::encrypt(&recipient, plaintext.as_bytes()).map_err(|e| e.to_string())
    });
    assert!(result.is_ok(), "get_secret should succeed: {:?}", result);

    let b64 = result.unwrap();
    let encrypted = base64::engine::general_purpose::STANDARD.decode(&b64).unwrap();
    let decrypted = String::from_utf8(age::decrypt(&identity, &encrypted).unwrap()).unwrap();
    assert!(decrypted.contains("ghp_test123"));
}

#[test]
fn mcp_server_denies_unauthorized_secret() {
    let server = setup_server("nixos");
    let result = get_secret(&server, "npm-token", Err("unused".to_string()), |_, _| Ok(vec![]));
    assert!(result.is_err());
}

#[test]
fn denied_request_is_answered_before_any_read() {
    let server = setup_server("nixos");
    match server.start_get_secret("npm-token") {
        GetSecretAction::Reply(Err(m)) => {
            assert_eq!(m, "access denied: agent 'nixos' cannot read 'npm-token'")
        }
        _ => panic!("expected a refusal"),
    }
}

#[test]
fn allowed_request_reads_the_secret_file() {
    let server = setup_server("nixos");
    match server.start_get_secret("github-token") {
        GetSecretAction::ReadSecret { path } => {
            assert_eq!(path, "/srv/agent-vault/vault/github-token")
        }
        _ => panic!("expected a read"),
    }
}

#[test]
fn missing_public_key_is_reported() {
    let server = setup_server("nixos");
    let result = get_secret(&server, "github-token", Err("No such file or directory (os error 2)".to_string()), |_, _| Ok(vec![]));
    assert_eq!(
        result,
        Err("public key not found for nixos: No such file or directory (os error 2)".to_string())
    );
}

#[test]
fn encryption_failure_is_reported() {
    let server = setup_server("nixos");
    let result = get_secret(&server, "github-token", Ok(" age1key \n".to_string()), |p, k| {
        assert_eq!(p, "ghp_test123\n");
        assert_eq!(k, "age1key");
        Err("bad key".to_string())
    });
    assert_eq!(result, Err("encryption failed: bad key".to_string()));
}

#[test]
fn ciphertext_is_answered_in_base64() {
    let server = setup_server("nixos");
    let cases: [(&[u8], &str); 5] = [
        (b"", ""),
        (b"f", "Zg=="),
        (b"fo", "Zm8="),
        (b"foo", "Zm9v"),
        (b"foobar", "Zm9vYmFy"),
    ];
    for (bytes, text) in cases {
        let result = get_secret(&server, "github-token", Ok("k".to_string()), |_, _| Ok(bytes.to_vec()));
        assert_eq!(result, Ok(text.to_string()));
    }
    let all: Vec<u8> = (0..=255u8).collect();
    match SecretsVaultServer::after_encryption(Ok(all.clone())) {
        GetSecretAction::Reply(Ok(text)) => {
            assert_eq!(text, base64::engine::general_purpose::STANDARD.encode(&all))
        }
        _ => panic!("expected a reply"),
    }
}

#[test]
fn system_prompt_lists_agents() {
    let server = setup_server("nixos");
    let prompt = server.system_prompt(&["home".to_string(), "ops".to_string()]);
    let expected = r#"You have the following tools available:

1. get_secret(name: string) -> string
   Fetches a secret by name. Returns the value age-encrypted with your public key.
   Decrypt with: echo "<value>" | base64 -d | age --decrypt -i ~/.agent-store/nixos/agent.key

2. send_to_agent(agent: string, message: string) -> string
   Sends a message to another agent and waits for its response.
   Available agents: home, ops
"#;
    assert_eq!(prompt, expected);
    assert!(server.system_prompt(&[]).ends_with("Available agents: \n"));
}

#[test]
fn accesses_are_counted_as_granted_or_denied() {
    let vault = setup_vault();
    assert_eq!(vault.access_before_read("nixos", "npm-token"), Some(SecretAccess::Denied));
    assert_eq!(vault.access_before_read("unknown-agent", "github-token"), Some(SecretAccess::Denied));
    assert_eq!(vault.access_before_read("nixos", "github-token"), None);
    assert_eq!(Vault::access_after_read(&Some("x".to_string())), Some(SecretAccess::Granted));
    assert_eq!(Vault::access_after_read(&None), None);
    assert_eq!(SecretAccess::Granted.label(), "granted");
    assert_eq!(SecretAccess::Denied.label(), "denied");
    let server = setup_server("nixos");
    assert_eq!(server.access_before_read("npm-token"), Some(SecretAccess::Denied));
    assert_eq!(server.access_before_read("github-token"), None);
    assert!(SecretsVaultServer::records_duration(&Ok(vec![1])));
    assert!(!SecretsVaultServer::records_duration(&Err("e".to_string())));
}

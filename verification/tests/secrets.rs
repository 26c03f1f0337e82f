use shipcat::error::{Error, ParseError, SourceError};
use shipcat::manifest::{Manifest, VaultOpts};
use shipcat::secrets::{fill_secret, kube_secret_name, read_key_path};
use shipcat::strmap::StrMap;

fn env_of(pairs: &[(&str, &str)]) -> StrMap<String> {
    let mut m = StrMap::new();
    for (k, v) in pairs {
        m.insert(k.to_string(), v.to_string());
    }
    m
}

#[test]
fn secret_names() {
    assert_eq!(kube_secret_name("db_password"), "kube-secret-db-password");
    assert_eq!(kube_secret_name(""), "kube-secret-");
    assert_eq!(kube_secret_name("__a_"), "kube-secret---a-");
    assert_eq!(kube_secret_name("Keeps-Case"), "kube-secret-Keeps-Case");
}

#[test]
fn key_paths() {
    assert_eq!(read_key_path("IN_KUBE_SECRETS:db"), Some("db".to_string()));
    assert_eq!(read_key_path("IN_KUBE_SECRETS:db:rest"), Some("db".to_string()));
    assert_eq!(read_key_path("IN_KUBE_SECRETS:"), None);
    assert_eq!(read_key_path("IN_KUBE_SECRETS::db"), None);
    assert_eq!(read_key_path("IN_KUBE_SECRETS"), None);
    assert_eq!(read_key_path(""), None);
    assert_eq!(read_key_path(":é_ü"), Some("é_ü".to_string()));
}

#[test]
fn values_are_filled_in() {
    let fetched = env_of(&[("TOKEN", "s3cr3t")]);
    assert_eq!(fill_secret("TOKEN", "IN_VAULT", &fetched), Ok("s3cr3t".to_string()));
    assert_eq!(
        fill_secret("OTHER", "IN_VAULT", &fetched),
        Err(Error::Source(SourceError::MissingSecret))
    );
    assert_eq!(
        fill_secret("DB_PASSWORD", "IN_KUBE_SECRETS", &fetched),
        Ok("kube-secret-db-password".to_string())
    );
    assert_eq!(
        fill_secret("X", "IN_KUBE_SECRETS:Shared_KEY", &fetched),
        Ok("kube-secret-shared-key".to_string())
    );
    assert_eq!(
        fill_secret("X", "IN_KUBE_SECRETS:", &fetched),
        Err(Error::Parse(ParseError::SecretKeyPath))
    );
    assert_eq!(
        fill_secret("X", "IN_KUBE_SECRETS_", &fetched),
        Err(Error::Parse(ParseError::SecretKeyPath))
    );
    assert_eq!(fill_secret("X", "plain", &fetched), Ok("plain".to_string()));
    assert_eq!(fill_secret("X", "IN_VAULTS", &fetched), Ok("IN_VAULTS".to_string()));
}

#[test]
fn requests_name_the_paths() {
    let mut m = Manifest::new("webapp", "");
    m.env = env_of(&[("B_TOKEN", "IN_VAULT"), ("A_KEY", "IN_VAULT"), ("PLAIN", "x")]);
    assert_eq!(
        m.secret_requests("dev", "uk"),
        vec![
            ("A_KEY".to_string(), "dev-uk/webapp/A_KEY".to_string()),
            ("B_TOKEN".to_string(), "dev-uk/webapp/B_TOKEN".to_string()),
        ]
    );
    m.vault = Some(VaultOpts { name: "shared".to_string() });
    assert_eq!(
        m.secret_requests("prod", "us"),
        vec![
            ("A_KEY".to_string(), "prod-us/shared/A_KEY".to_string()),
            ("B_TOKEN".to_string(), "prod-us/shared/B_TOKEN".to_string()),
        ]
    );
}

#[test]
fn secrets_replace_the_placeholders() {
    let mut m = Manifest::new("webapp", "");
    m.version = Some("1".to_string());
    m.env = env_of(&[
        ("TOKEN", "IN_VAULT"),
        ("DB_PASSWORD", "IN_KUBE_SECRETS"),
        ("API", "IN_KUBE_SECRETS:Other_Key"),
        ("PLAIN", "x"),
    ]);
    assert_eq!(m.secrets(&env_of(&[("TOKEN", "s3cr3t"), ("UNUSED", "y")])), Ok(()));
    assert_eq!(
        m.env,
        env_of(&[
            ("TOKEN", "s3cr3t"),
            ("DB_PASSWORD", "kube-secret-db-password"),
            ("API", "kube-secret-other-key"),
            ("PLAIN", "x"),
        ])
    );
    assert_eq!(m.version, Some("1".to_string()));
    assert_eq!(m.name, "webapp");
}

#[test]
fn a_failure_leaves_the_manifest_alone() {
    let mut m = Manifest::new("webapp", "");
    m.env = env_of(&[("A", "IN_KUBE_SECRETS"), ("B", "IN_VAULT"), ("C", "IN_KUBE_SECRETS:")]);
    let before = m.clone();
    assert_eq!(m.secrets(&StrMap::new()), Err(Error::Source(SourceError::MissingSecret)));
    assert_eq!(m, before);
    assert_eq!(
        m.secrets(&env_of(&[("B", "v")])),
        Err(Error::Parse(ParseError::SecretKeyPath))
    );
    assert_eq!(m, before);
}

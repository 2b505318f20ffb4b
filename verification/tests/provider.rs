use goose_ffi2::provider::{creation_error, databricks_credentials, provider_kind, ProviderError, ProviderKind};

fn message(e: ProviderError) -> String {
    match e {
        ProviderError::RequestFailed(m) => m,
    }
}

#[test]
fn provider_kinds() {
    assert_eq!(provider_kind("databricks"), ProviderKind::Databricks);
    assert_eq!(provider_kind("openai"), ProviderKind::Registry);
    assert_eq!(provider_kind("Databricks"), ProviderKind::Registry);
}

#[test]
fn databricks_needs_host_then_token() {
    assert_eq!(
        message(databricks_credentials(None, None).unwrap_err()),
        "DATABRICKS_HOST environment variable not set"
    );
    assert_eq!(
        message(databricks_credentials(Some("h".to_string()), None).unwrap_err()),
        "DATABRICKS_TOKEN environment variable not set"
    );
    let (h, t) = databricks_credentials(Some("https://x".to_string()), Some("SECRET-REDACTED".to_string())).unwrap();
    assert_eq!(h, "https://x");
    assert_eq!(t, "SECRET-REDACTED");
}

#[test]
fn creation_errors() {
    assert_eq!(
        message(creation_error(ProviderKind::Databricks, "databricks", "bad host")),
        "Failed to create Databricks provider: bad host"
    );
    assert_eq!(
        message(creation_error(ProviderKind::Registry, "openai", "no key")),
        "Failed to create provider openai: no key"
    );
}

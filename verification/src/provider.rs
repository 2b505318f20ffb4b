//! Choosing how a completion provider is created, and the errors on the way.
use vstd::prelude::*;
use vstd::string::StringExecFns;

verus! {

/// An error on the way to a provider: a request that cannot be made, with its reason.
#[derive(Debug)]
pub enum ProviderError {
    RequestFailed(String),
}

impl View for ProviderError {
    type V = Seq<char>;

    /// The reason of the failure.
    open spec fn view(&self) -> Seq<char> {
        match self {
            ProviderError::RequestFailed(m) => m@,
        }
    }
}

/// How a provider is made: Databricks directly from its host and token, every
/// other provider through the shared provider registry.
#[derive(Debug, Clone, Copy, PartialEq, Eq, Structural)]
pub enum ProviderKind {
    Databricks,
    Registry,
}

pub open spec fn spec_provider_kind(provider_name: Seq<char>) -> ProviderKind {
    if provider_name == "databricks"@ {
        ProviderKind::Databricks
    } else {
        ProviderKind::Registry
    }
}

pub fn provider_kind(provider_name: &str) -> (r: ProviderKind)
    ensures
        r == spec_provider_kind(provider_name@),
{
    let name = provider_name.to_owned();
    let databricks = String::from_str("databricks");
    if name == databricks {
        ProviderKind::Databricks
    } else {
        ProviderKind::Registry
    }
}

/// The Databricks host and token, given the values of `DATABRICKS_HOST` and
/// `DATABRICKS_TOKEN` (`None` where a variable is not set); the host is
/// checked first.
pub open spec fn spec_databricks_credentials(host: Option<Seq<char>>, token: Option<Seq<char>>) -> Result<
    (Seq<char>, Seq<char>),
    Seq<char>,
> {
    match host {
        None => Err("DATABRICKS_HOST environment variable not set"@),
        Some(h) => match token {
            None => Err("DATABRICKS_TOKEN environment variable not set"@),
            Some(t) => Ok((h, t)),
        },
    }
}

pub fn databricks_credentials(host: Option<String>, token: Option<String>) -> (r: Result<
    (String, String),
    ProviderError,
>)
    ensures
        match r {
            Ok((h, t)) => spec_databricks_credentials(host.deep_view(), token.deep_view()) == Ok::<
                (Seq<char>, Seq<char>),
                Seq<char>,
            >((h@, t@)),
            Err(e) => spec_databricks_credentials(host.deep_view(), token.deep_view()) == Err::<
                (Seq<char>, Seq<char>),
                Seq<char>,
            >(e@),
        },
{
    let h = match host {
        Some(h) => h,
        None => {
            return Err(
                ProviderError::RequestFailed(
                    String::from_str("DATABRICKS_HOST environment variable not set"),
                ),
            )
        },
    };
    let t = match token {
        Some(t) => t,
        None => {
            return Err(
                ProviderError::RequestFailed(
                    String::from_str("DATABRICKS_TOKEN environment variable not set"),
                ),
            )
        },
    };
    Ok((h, t))
}

/// The error given when making a provider of `kind` fails with `detail`.
pub open spec fn spec_creation_error(kind: ProviderKind, provider_name: Seq<char>, detail: Seq<char>) -> Seq<char> {
    match kind {
        ProviderKind::Databricks => "Failed to create Databricks provider: "@ + detail,
        ProviderKind::Registry => "Failed to create provider "@ + provider_name + ": "@ + detail,
    }
}

pub fn creation_error(kind: ProviderKind, provider_name: &str, detail: &str) -> (r: ProviderError)
    ensures
        r@ == spec_creation_error(kind, provider_name@, detail@),
{
    match kind {
        ProviderKind::Databricks => {
            let mut m = String::from_str("Failed to create Databricks provider: ");
            m.append(detail);
            ProviderError::RequestFailed(m)
        },
        ProviderKind::Registry => {
            let mut m = String::from_str("Failed to create provider ");
            m.append(provider_name);
            m.append(": ");
            m.append(detail);
            ProviderError::RequestFailed(m)
        },
    }
}

} // verus!

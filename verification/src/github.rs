//! The authentication decision for the GitHub side of discovery.
//! Probing the credentials — asking the `gh` CLI for a token, reading
//! the environment — is the embedding application's side; it hands
//! whatever it found in as plain optional values and this decides.

use vstd::prelude::*;

use crate::strutil::{spec_starts_with, starts_with, str_eq};

verus! {

/// GitHub authentication strategies.
#[derive(Debug, Clone, Copy, PartialEq, Eq, Structural)]
pub enum AuthStrategy {
    /// Use GitHub CLI authentication.
    GitHubCLI,
    /// Use an environment variable token.
    EnvironmentToken,
}

/// Picks the authentication strategy the configuration asks for,
/// given the tokens that could be probed: under "auto" the CLI wins
/// over the environment, "gh_cli" and "token" each demand their own
/// source, and any other method is rejected.
pub fn choose_auth(auth_method: &str, cli_token: Option<String>, env_token: Option<String>) -> (r:
    Result<(AuthStrategy, String), String>)
    ensures
        ({
            let m = auth_method@;
            if m == "auto"@ {
                match (cli_token, env_token) {
                    (Some(t), _) => r matches Ok((s, tok)) && s == AuthStrategy::GitHubCLI && tok
                        == t,
                    (None, Some(t)) => r matches Ok((s, tok)) && s
                        == AuthStrategy::EnvironmentToken && tok == t,
                    (None, None) => r is Err,
                }
            } else if m == "gh_cli"@ {
                match cli_token {
                    Some(t) => r matches Ok((s, tok)) && s == AuthStrategy::GitHubCLI && tok == t,
                    None => r is Err,
                }
            } else if m == "token"@ {
                match env_token {
                    Some(t) => r matches Ok((s, tok)) && s == AuthStrategy::EnvironmentToken && tok
                        == t,
                    None => r is Err,
                }
            } else {
                r is Err
            }
        }),
{
    if str_eq(auth_method, "auto") {
        match cli_token {
            Some(t) => Ok((AuthStrategy::GitHubCLI, t)),
            None => match env_token {
                Some(t) => Ok((AuthStrategy::EnvironmentToken, t)),
                None => Err(
                    String::from_str(
                        "No GitHub authentication found. Install and authenticate the GitHub CLI, or set the GITHUB_TOKEN environment variable.",
                    ),
                ),
            },
        }
    } else if str_eq(auth_method, "gh_cli") {
        match cli_token {
            Some(t) => Ok((AuthStrategy::GitHubCLI, t)),
            None => Err(
                String::from_str("GitHub CLI authentication failed. Run: gh auth login"),
            ),
        }
    } else if str_eq(auth_method, "token") {
        match env_token {
            Some(t) => Ok((AuthStrategy::EnvironmentToken, t)),
            None => Err(
                String::from_str("GITHUB_TOKEN environment variable not found or invalid"),
            ),
        }
    } else {
        let mut e = String::from_str("Unknown auth method: ");
        e.append(auth_method);
        Err(e)
    }
}

/// Whether a token has one of the shapes GitHub issues: a `ghp_`,
/// `gho_` or `ghs_` prefix.
pub fn plausible_github_token(token: &str) -> (r: bool)
    ensures
        r == (spec_starts_with(token@, "ghp_"@) || spec_starts_with(token@, "gho_"@)
            || spec_starts_with(token@, "ghs_"@)),
{
    starts_with(token, "ghp_") || starts_with(token, "gho_") || starts_with(token, "ghs_")
}

} // verus!

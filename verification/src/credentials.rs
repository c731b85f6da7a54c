//! The choice of the credentials with which the queue client signs its
//! requests.

use vstd::prelude::*;

verus! {

/// Variable of the environment that holds the path of the web identity token
/// file.
pub const TOKEN_FILE_VARIABLE: &'static str = "AWS_WEB_IDENTITY_TOKEN_FILE";

/// Variable of the environment that holds the name of the role to assume.
pub const ROLE_VARIABLE: &'static str = "AWS_ROLE_ARN";

/// Where the queue client takes its credentials from.
#[derive(Clone, Copy, Debug, PartialEq, Eq, Structural)]
pub enum CredentialSource {
    /// The client's default chain of providers.
    Default,
    /// A web identity token that is exchanged for the credentials of a role.
    WebIdentity,
}

/// Model of the value of a variable of the environment: its text, or `None`
/// where the variable is absent.
pub open spec fn value_view(value: Option<&str>) -> Option<Seq<char>> {
    match value {
        Some(text) => Some(text@),
        None => None,
    }
}

/// A variable of the environment counts as set when it is present and not
/// empty.
pub open spec fn is_set(value: Option<Seq<char>>) -> bool {
    value matches Some(text) && text.len() > 0
}

/// Web identity is chosen exactly when both the token file and the role are
/// set.
pub open spec fn chosen_source(
    token_file: Option<Seq<char>>,
    role: Option<Seq<char>>,
) -> CredentialSource {
    if is_set(token_file) && is_set(role) {
        CredentialSource::WebIdentity
    } else {
        CredentialSource::Default
    }
}

/// Chooses the source of the credentials from the values of the two
/// variables that configure web identity: the path of the token file and the
/// name of the role.
pub fn credential_source(token_file: Option<&str>, role: Option<&str>) -> (source:
    CredentialSource)
    ensures
        source == chosen_source(value_view(token_file), value_view(role)),
{
    let token_file_missing = match token_file {
        Some(text) => text.is_empty(),
        None => true,
    };
    let role_missing = match role {
        Some(text) => text.is_empty(),
        None => true,
    };
    if token_file_missing || role_missing {
        CredentialSource::Default
    } else {
        CredentialSource::WebIdentity
    }
}

} // verus!

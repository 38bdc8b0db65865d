//! What a user is told when the server cannot start: a short heading and a
//! suggestion of how to fix it.

use vstd::prelude::*;

use crate::config::CliParseError;

verus! {

/// A fatal error as shown to the user.
#[derive(Debug, Clone, PartialEq, Eq)]
pub struct ErrorReport {
    pub title: String,
    pub suggestion: String,
}

/// The heading and suggestion for a configuration that could not be had.
pub open spec fn cli_fix_spec(err: CliParseError) -> (Seq<char>, Seq<char>) {
    match err {
        CliParseError::Home => (
            "$HOME NOT FOUND"@,
            "We cannot find your $HOME directory, so we can't locate your polyblocks config file. Aborting."@,
        ),
        CliParseError::ConfigFile => (
            "CONFIG FILE ERROR"@,
            "We could not open and parse your configuration file. Try creating one at ~/.config/polyblocks/Config.toml"@,
        ),
        CliParseError::TomlParseError => (
            "TOML PARSE ERROR"@,
            "We could not parse your configuration file into a TOML. Please validate it and try again."@,
        ),
    }
}

/// What to tell the user when the configuration could not be had.
pub fn suggest_cli_fix(err: CliParseError) -> (r: ErrorReport)
    ensures
        (r.title@, r.suggestion@) == cli_fix_spec(err),
{
    match err {
        CliParseError::Home => ErrorReport {
            title: "$HOME NOT FOUND".to_owned(),
            suggestion: "We cannot find your $HOME directory, so we can't locate your polyblocks config file. Aborting.".to_owned(),
        },
        CliParseError::ConfigFile => ErrorReport {
            title: "CONFIG FILE ERROR".to_owned(),
            suggestion: "We could not open and parse your configuration file. Try creating one at ~/.config/polyblocks/Config.toml".to_owned(),
        },
        CliParseError::TomlParseError => ErrorReport {
            title: "TOML PARSE ERROR".to_owned(),
            suggestion: "We could not parse your configuration file into a TOML. Please validate it and try again.".to_owned(),
        },
    }
}

/// What to tell the user when the socket of server `server_id` cannot be bound.
pub fn suggest_server_fix(server_id: &str) -> (r: ErrorReport)
    ensures
        r.title@ == "COULD NOT CONNECT TO SOCKET"@,
        r.suggestion@ == "Is another instance of polyblocks-server running with id \""@ + server_id@
            + "\"? Please pass polyblocks-server a unique id and try again."@,
{
    let mut suggestion = "Is another instance of polyblocks-server running with id \"".to_owned();
    suggestion.append(server_id);
    suggestion.append("\"? Please pass polyblocks-server a unique id and try again.");
    ErrorReport { title: "COULD NOT CONNECT TO SOCKET".to_owned(), suggestion }
}

} // verus!

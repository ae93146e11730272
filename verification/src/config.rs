//! The bot's configuration values.  Loading them from a TOML file is plain
//! file I/O and lives in the unverified shell; the shell hands the parsed
//! values over in these types.

use vstd::prelude::*;

verus! {

/// Connection settings for the chat network: the account, its token, the
/// server address, and the channels to join.
pub struct TwitchConfig {
    pub username: String,
    pub token: String,
    pub irc_server: String,
    pub channels: Vec<String>,
}

/// General configuration.
pub struct Config {
    pub twitch: TwitchConfig,
}

} // verus!

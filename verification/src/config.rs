//! The configuration a server is started with.

use vstd::prelude::*;

verus! {

/// Settings read once at startup and never changed afterwards.
#[derive(Debug)]
pub struct Config {
    pub port: u16,
    pub protocol_version: u16,
    pub max_players: u32,
    pub motd: String,
    pub favicon: Option<String>,
}

impl Config {
    /// Whether every setting has its default value.
    pub open spec fn is_default(&self) -> bool {
        &&& self.port == 25565
        &&& self.protocol_version == 578
        &&& self.max_players == 250
        &&& self.motd@ == "Hello world!"@
        &&& self.favicon is None
    }

    /// The settings of a server that was given none.
    pub fn default() -> (config: Config)
        ensures
            config.is_default(),
    {
        Config {
            port: 25565,
            protocol_version: 578,
            max_players: 250,
            motd: "Hello world!".to_owned(),
            favicon: None,
        }
    }

    /// The settings to run with, given what could be loaded: the loaded
    /// ones, or the defaults where loading gave nothing.
    pub fn loaded_or_default(loaded: Option<Config>) -> (config: Config)
        ensures
            match loaded {
                Some(found) => config == found,
                None => config.is_default(),
            },
    {
        match loaded {
            Some(found) => found,
            None => Config::default(),
        }
    }
}

} // verus!

//! Command-line options, as plain data. Reading them from the real
//! command line and environment is the caller's concern.

use vstd::prelude::*;

verus! {

/// The options the program runs with.
#[derive(Debug, Clone)]
pub struct Args {
    /// Enable verbose/debug logging.
    pub verbose: bool,
    /// Output messages as raw JSON lines.
    pub json: bool,
    /// Clear the existing session and pair afresh.
    pub logout: bool,
    /// Custom data directory for session storage.
    pub data_dir: Option<String>,
    /// Path of the bridge binary, when not auto-detected.
    pub bridge_path: Option<String>,
    /// Start web server mode.
    pub web: bool,
    /// Port for the web server.
    pub port: u16,
    /// Host address to bind the web server to.
    pub host: String,
    /// API key for message translation.
    pub claude_api_key: Option<String>,
    /// Messages already in this language are not translated.
    pub default_language: String,
    /// Password protecting the web interface, when set.
    pub password: Option<String>,
}

impl Args {
    /// Whether translation is enabled: exactly when an API key is
    /// set.
    pub fn translation_enabled(&self) -> (r: bool)
        ensures
            r == (self.claude_api_key is Some),
    {
        match &self.claude_api_key {
            Some(_) => true,
            None => false,
        }
    }
}

} // verus!

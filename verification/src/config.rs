//! The user-supplied configuration the presentation layer feeds into the
//! core at start time, and the gating rules that say when testing the
//! connection and watching a folder may begin.

use vstd::prelude::*;

verus! {

/// Endpoint, credential, destination event code, and the folder to watch.
#[derive(Debug)]
pub struct AppConfig {
    pub api_endpoint: String,
    pub api_key: String,
    pub event_code: String,
    pub watch_folder: Option<String>,
}

impl Default for AppConfig {
    /// Everything empty and no folder chosen.
    fn default() -> (r: AppConfig)
        ensures
            r.api_endpoint@ == Seq::<char>::empty(),
            r.api_key@ == Seq::<char>::empty(),
            r.event_code@ == Seq::<char>::empty(),
            r.watch_folder is None,
    {
        AppConfig {
            api_endpoint: String::new(),
            api_key: String::new(),
            event_code: String::new(),
            watch_folder: None,
        }
    }
}

impl AppConfig {
    /// A connection test needs an endpoint and a credential.
    pub fn can_test_connection(&self) -> (r: bool)
        ensures
            r == (self.api_endpoint@.len() > 0 && self.api_key@.len() > 0),
    {
        !self.api_endpoint.as_str().is_empty() && !self.api_key.as_str().is_empty()
    }

    /// Watching needs the full configuration: endpoint, credential, event
    /// code, and a chosen folder.
    pub fn can_start_watching(&self) -> (r: bool)
        ensures
            r == (self.api_endpoint@.len() > 0 && self.api_key@.len() > 0 && self.event_code@.len()
                > 0 && self.watch_folder is Some),
    {
        !self.api_endpoint.as_str().is_empty() && !self.api_key.as_str().is_empty()
            && !self.event_code.as_str().is_empty() && self.watch_folder.is_some()
    }
}

/// What the presentation layer knows about the last connection test.
#[derive(Debug, PartialEq)]
pub enum ConnectionStatus {
    NotTested,
    Testing,
    Connected,
    Failed(String),
}

/// The start button is live while watching (so it can stop), or once a
/// connection test has succeeded.
pub fn should_enable_start_button(is_watching: bool, status: &ConnectionStatus) -> (r: bool)
    ensures
        r == (is_watching || *status is Connected),
{
    is_watching || matches!(status, ConnectionStatus::Connected)
}

} // verus!

//! The account settings: server, login name and app password.

use vstd::prelude::*;

verus! {

/// The account settings of the client.
#[derive(Debug, Clone, Default)]
pub struct NxCliConfig {
    pub server: String,
    pub user: String,
    pub app_password: String,
}

impl NxCliConfig {
    /// Settings with the given server, login name and app password.
    pub fn new(server: String, user: String, app_password: String) -> (r: NxCliConfig)
        ensures
            r.server@ == server@,
            r.user@ == user@,
            r.app_password@ == app_password@,
    {
        NxCliConfig { server, user, app_password }
    }

    /// A copy of the settings, field by field.
    pub fn copy(&self) -> (r: NxCliConfig)
        ensures
            r.server@ == self.server@,
            r.user@ == self.user@,
            r.app_password@ == self.app_password@,
    {
        NxCliConfig {
            server: self.server.clone(),
            user: self.user.clone(),
            app_password: self.app_password.clone(),
        }
    }

    /// Whether the settings are incomplete: some field is empty.
    pub fn is_empty(&self) -> (r: bool)
        ensures
            r == (self.app_password@.len() == 0 || self.user@.len() == 0 || self.server@.len() == 0),
    {
        self.app_password.as_str().is_empty() || self.user.as_str().is_empty()
            || self.server.as_str().is_empty()
    }
}

} // verus!

//! The first site's gatherer: its settings and endpoints, how its responses
//! turn into subscriptions and media, and how its pages are walked.

pub mod client;
pub mod gatherer;
pub mod ids;
pub mod responses;
pub mod structs;

use vstd::prelude::*;

use crate::gatherers::GathererErrors;

verus! {

/// The name the gatherer goes by.
pub const GATHERER_NAME: &'static str = "fansly";

/// The settings of the gatherer.
#[derive(Debug)]
pub struct FanslyConfig {
    pub enabled: bool,
    pub auth_token: String,
    pub ignore_lists: Vec<String>,
}

impl Default for FanslyConfig {
    fn default() -> (c: FanslyConfig)
        ensures
            !c.enabled,
            c.auth_token@.len() == 0,
            c.ignore_lists@.len() == 0,
    {
        FanslyConfig { enabled: false, auth_token: String::new(), ignore_lists: Vec::new() }
    }
}

impl FanslyConfig {
    /// Refuses a gatherer that is not enabled.
    pub fn check_enabled(&self) -> (r: Result<(), GathererErrors>)
        ensures
            r is Ok <==> self.enabled,
            r matches Err(e) ==> e matches GathererErrors::NotEnabled { name } && name@ == "Fansly"@,
    {
        if !self.enabled {
            return Err(GathererErrors::NotEnabled { name: "Fansly".to_owned() });
        }
        Ok(())
    }

    /// Refuses an empty auth token.
    pub fn check_auth_token(&self) -> (r: Result<(), GathererErrors>)
        ensures
            r is Ok <==> self.auth_token@.len() > 0,
            r matches Err(e) ==> e matches GathererErrors::InvalidCredentials { name, msg } && name@
                == "Fansly"@ && msg@ == "Cannot be used without an auth token."@,
    {
        if self.auth_token.as_str().unicode_len() == 0 {
            return Err(
                GathererErrors::InvalidCredentials {
                    name: "Fansly".to_owned(),
                    msg: "Cannot be used without an auth token.".to_owned(),
                },
            );
        }
        Ok(())
    }

    /// The headers of every call: the auth token as `Authorization`.
    pub fn default_headers(&self) -> (h: Vec<(String, String)>)
        ensures
            h@.len() == 1,
            h@[0].0@ == "Authorization"@,
            h@[0].1@ == self.auth_token@,
    {
        let mut h: Vec<(String, String)> = Vec::new();
        h.push(("Authorization".to_owned(), self.auth_token.clone()));
        h
    }
}

} // verus!

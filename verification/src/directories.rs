//! The machine's folders for the program's configuration and downloads.

use vstd::prelude::*;

use crate::paths::{path_join, path_join_seq};

verus! {

/// The program's configuration folder of the `directories` crate
/// (`ProjectDirs::from(qualifier, organization, application)`), when the
/// machine has a home folder. The folder depends on the environment and the
/// platform, so nothing is said of it.
#[verifier::external_body]
fn project_config_dir(qualifier: &str, organization: &str, application: &str) -> Option<String> {
    directories::ProjectDirs::from(qualifier, organization, application).map(
        |p| p.config_dir().to_string_lossy().into_owned(),
    )
}

/// The user's base folders of the `directories` crate (`BaseDirs::new`), by
/// the local data folder and the configuration folder, when the machine has a
/// home folder. They depend on the environment, so nothing is said of them.
#[verifier::external_body]
fn base_dirs() -> Option<(String, String)> {
    directories::BaseDirs::new().map(
        |b|
            (
                b.data_local_dir().to_string_lossy().into_owned(),
                b.config_dir().to_string_lossy().into_owned(),
            ),
    )
}

/// The program's folders on this machine.
pub struct Directories {
    project_config_dir: Option<String>,
    base_data_local_dir: Option<String>,
    base_config_dir: Option<String>,
    app_name: String,
}

/// The text of an optional string.
pub open spec fn opt_text(s: Option<String>) -> Option<Seq<char>> {
    match s {
        Some(x) => Some(x@),
        None => None,
    }
}

impl Directories {
    /// The program's configuration folder, when known.
    pub closed spec fn project_config(&self) -> Option<Seq<char>> {
        opt_text(self.project_config_dir)
    }

    /// The user's local data folder, when known.
    pub closed spec fn base_data_local(&self) -> Option<Seq<char>> {
        opt_text(self.base_data_local_dir)
    }

    /// The user's configuration folder, when known.
    pub closed spec fn base_config(&self) -> Option<Seq<char>> {
        opt_text(self.base_config_dir)
    }

    /// The program's name in paths.
    pub closed spec fn app_name(&self) -> Seq<char> {
        self.app_name@
    }

    /// The folders of the program `gatherers` (of `reynn`, `dev`) on this machine.
    pub fn new() -> (d: Directories)
        ensures
            d.app_name() == "gatherers"@,
            d.base_data_local() is Some <==> d.base_config() is Some,
    {
        let app_name = "gatherers";
        let project = project_config_dir("dev", "reynn", app_name);
        Directories::from_folders(project, base_dirs(), app_name)
    }

    /// The folders of the program `app_name` from what the machine reports: the
    /// program's configuration folder, and the user's local data and
    /// configuration folders.
    pub fn from_folders(project_config: Option<String>, base: Option<(String, String)>, app_name: &str) -> (d: Directories)
        ensures
            d.app_name() == app_name@,
            d.project_config() == opt_text(project_config),
            base matches Some(b) ==> d.base_data_local() == Some(b.0@) && d.base_config() == Some(b.1@),
            base is None ==> d.base_data_local() is None && d.base_config() is None,
    {
        let (data, config) = match base {
            Some(b) => (Some(b.0), Some(b.1)),
            None => (None, None),
        };
        Directories {
            project_config_dir: project_config,
            base_data_local_dir: data,
            base_config_dir: config,
            app_name: app_name.to_owned(),
        }
    }

    /// A download folder can be determined.
    pub fn has_download_dir(&self) -> (b: bool)
        ensures
            b == (self.project_config() is Some || self.base_data_local() is Some),
    {
        self.project_config_dir.is_some() || self.base_data_local_dir.is_some()
    }

    /// A configuration folder can be determined.
    pub fn has_config_dir(&self) -> (b: bool)
        ensures
            b == (self.project_config() is Some || self.base_config() is Some),
    {
        self.project_config_dir.is_some() || self.base_config_dir.is_some()
    }

    /// The default download folder: the program's configuration folder, or
    /// else the program's folder in the user's local data folder.
    pub fn get_default_download_dir(&self) -> (p: String)
        requires
            self.project_config() is Some || self.base_data_local() is Some,
        ensures
            self.project_config() matches Some(c) ==> p@ == c,
            self.project_config() is None ==> p@ == path_join_seq(
                self.base_data_local()->Some_0,
                self.app_name(),
            ),
    {
        match &self.project_config_dir {
            Some(c) => c.clone(),
            None => match &self.base_data_local_dir {
                Some(b) => path_join(b.as_str(), self.app_name.as_str()),
                None => String::new(),
            },
        }
    }

    /// The default configuration folder: the program's configuration folder,
    /// or else the user's configuration folder.
    pub fn get_default_config_dir(&self) -> (p: String)
        requires
            self.project_config() is Some || self.base_config() is Some,
        ensures
            self.project_config() matches Some(c) ==> p@ == c,
            self.project_config() is None ==> p@ == self.base_config()->Some_0,
    {
        match &self.project_config_dir {
            Some(c) => c.clone(),
            None => match &self.base_config_dir {
                Some(b) => b.clone(),
                None => String::new(),
            },
        }
    }
}

impl Default for Directories {
    fn default() -> (d: Directories)
        ensures
            d.app_name() == "gatherers"@,
            d.base_data_local() is Some <==> d.base_config() is Some,
    {
        Directories::new()
    }
}

} // verus!

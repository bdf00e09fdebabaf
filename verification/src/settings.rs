//! The settings that are kept between runs, in a file in the user's home folder.

use crate::config::{
    copy_optional, copy_texts, optional_text, Config, ConfigView, DEFAULT_HOST, DEFAULT_HOSTS_PATH,
};
use crate::error::{ConfigError, ConfigErrorView};
use vstd::prelude::*;

verus! {

/// The name of the settings file.
pub const SAVE_NAME: &'static str = ".wsl2-ip-host.json";

/// What is kept of a configuration between runs.
#[derive(Debug, PartialEq, Eq)]
pub struct SavedSettings {
    /// The path of the hosts file.
    pub hosts_path: String,
    /// The names that shall resolve to the virtual machine.
    pub domains: Vec<String>,
    /// The distribution to ask, or `None` for the default one.
    pub distro: Option<String>,
}

/// `SavedSettings` as plain mathematical values.
pub struct SavedSettingsView {
    pub hosts_path: Seq<char>,
    pub domains: Seq<Seq<char>>,
    pub distro: Option<Seq<char>>,
}

impl View for SavedSettings {
    type V = SavedSettingsView;

    open spec fn view(&self) -> SavedSettingsView {
        SavedSettingsView {
            hosts_path: self.hosts_path@,
            domains: self.domains.deep_view(),
            distro: optional_text(self.distro),
        }
    }
}

impl ConfigView {
    /// What is kept of `self` between runs.
    pub open spec fn kept(self) -> SavedSettingsView {
        SavedSettingsView {
            hosts_path: self.hosts_path,
            domains: self.names,
            distro: self.distro,
        }
    }
}

impl SavedSettingsView {
    /// The configuration that the settings give.
    pub open spec fn restored(self) -> ConfigView {
        ConfigView {
            hosts_path: self.hosts_path,
            names: self.domains,
            distro: self.distro,
            last_address: None,
        }
    }
}

/// The configuration of a first run: the default hosts file and the default name.
pub open spec fn first_run() -> ConfigView {
    ConfigView {
        hosts_path: DEFAULT_HOSTS_PATH@,
        names: seq![DEFAULT_HOST@],
        distro: None,
        last_address: None,
    }
}

/// The configuration without names for the default hosts file.
pub open spec fn blank() -> ConfigView {
    ConfigView {
        hosts_path: DEFAULT_HOSTS_PATH@,
        names: Seq::empty(),
        distro: None,
        last_address: None,
    }
}

/// What the search for saved settings gave, as plain values: the settings,
/// nothing where there is no settings file, or why they could not be had.
pub open spec fn stored_view(stored: Result<Option<SavedSettings>, ConfigError>) -> Result<
    Option<SavedSettingsView>,
    ConfigErrorView,
> {
    match stored {
        Ok(Some(saved)) => Ok(Some(saved@)),
        Ok(None) => Ok(None),
        Err(error) => Err(error@),
    }
}

/// The configuration to start with, given what the search for saved settings gave.
pub open spec fn configured(stored: Result<Option<SavedSettingsView>, ConfigErrorView>) -> Result<
    ConfigView,
    ConfigErrorView,
> {
    match stored {
        Ok(Some(saved)) => Ok(saved.restored()),
        Ok(None) => Ok(first_run()),
        Err(error) => Err(error),
    }
}

/// What is kept of `config` between runs.
pub fn save_config(config: &Config) -> (saved: SavedSettings)
    ensures
        saved@ == config@.kept(),
{
    SavedSettings {
        hosts_path: config.hosts_path.clone(),
        domains: copy_texts(config.names.as_slice()),
        distro: copy_optional(&config.distro),
    }
}

/// The configuration to start with.
///
/// Saved settings are taken as they are. Without a settings file it is the
/// default hosts file with the default name. Fails where the settings could
/// not be had.
pub fn read_config(stored: Result<Option<SavedSettings>, ConfigError>) -> (r: Result<
    Config,
    ConfigError,
>)
    ensures
        match configured(stored_view(stored)) {
            Ok(config) => r matches Ok(c) && c@ == config,
            Err(error) => r matches Err(e) && e@ == error,
        },
{
    match stored {
        Err(error) => Err(error),
        Ok(Some(saved)) => {
            let mut config = Config::with_hosts_path(saved.hosts_path.as_str());
            config.names = saved.domains;
            config.distro = saved.distro;
            Ok(config)
        },
        Ok(None) => {
            let mut config = Config::new();
            config.add_name(DEFAULT_HOST.to_owned());
            assert(config@.names =~= seq![DEFAULT_HOST@]);
            Ok(config)
        },
    }
}

/// The configuration to start with, which is the one without names where
/// the saved settings could not be had.
pub fn initial_config(stored: Result<Option<SavedSettings>, ConfigError>) -> (config: Config)
    ensures
        config@ == match configured(stored_view(stored)) {
            Ok(c) => c,
            Err(_) => blank(),
        },
{
    match read_config(stored) {
        Ok(config) => config,
        Err(_) => Config::new(),
    }
}

} // verus!

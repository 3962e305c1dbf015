//! The configuration of the server and of the desktop app: defaults, overwritten by a config
//! file, overwritten by the command line.
//!
//! Paths are kept in the type `P` that the caller uses for them.
use vstd::prelude::*;

verus! {

/// The configuration of the server.
#[derive(Debug)]
pub struct Config<P> {
    pub config_file: P,
    pub port: u16,
    pub game_dir: P,
    pub log_dir: P,
    pub hax: bool,
    pub hax_http: bool,
}

/// The parts of the server's configuration that a source sets.
#[derive(Debug)]
pub struct PartialConfig<P> {
    pub config_file: Option<P>,
    pub port: Option<u16>,
    pub game_dir: Option<P>,
    pub log_dir: Option<P>,
    pub hax: Option<bool>,
    pub hax_http: Option<bool>,
}

/// `new` if it is set, `old` otherwise.
pub open spec fn or_else<T>(new: Option<T>, old: T) -> T {
    match new {
        Some(x) => x,
        None => old,
    }
}

/// The name of the option for the config file, and its default.
pub const ARG_CONFIG_FILE: &'static str = "config";
pub const DEFAULT_CONFIG_FILE: &'static str = "config.toml";
/// The name of the option for the port of the web server, and its default.
pub const ARG_PORT: &'static str = "port";
pub const DEFAULT_PORT: u16 = 48897;
/// The name of the option for the directory of the game files, and its default.
pub const ARG_GAME_DIR: &'static str = "game-files";
pub const DEFAULT_GAME_DIR: &'static str = "bfhax_data/game_files";
/// The name of the option for the directory of the logs, and its default.
pub const ARG_LOG_DIR: &'static str = "logs";
pub const DEFAULT_LOG_DIR: &'static str = "bfhax_data/logs";
/// The name of the option that enables cheats, and its default.
pub const ARG_HAX: &'static str = "hax";
pub const DEFAULT_HAX: bool = false;
/// The name of the option that disables the HTTP proxy, and the default of the HTTP proxy.
pub const ARG_HAX_HTTP: &'static str = "no-hax-http";
pub const DEFAULT_HAX_HTTP: bool = true;

impl<P> Config<P> {
    /// The configuration with each field that `new` sets taken from it.
    pub fn overwrite_with(self, new: PartialConfig<P>) -> (r: Config<P>)
        ensures
            r == (Config {
                config_file: or_else(new.config_file, self.config_file),
                port: or_else(new.port, self.port),
                game_dir: or_else(new.game_dir, self.game_dir),
                log_dir: or_else(new.log_dir, self.log_dir),
                hax: or_else(new.hax, self.hax),
                hax_http: or_else(new.hax_http, self.hax_http),
            }),
    {
        Config {
            config_file: match new.config_file {
                Some(x) => x,
                None => self.config_file,
            },
            port: match new.port {
                Some(x) => x,
                None => self.port,
            },
            game_dir: match new.game_dir {
                Some(x) => x,
                None => self.game_dir,
            },
            log_dir: match new.log_dir {
                Some(x) => x,
                None => self.log_dir,
            },
            hax: match new.hax {
                Some(x) => x,
                None => self.hax,
            },
            hax_http: match new.hax_http {
                Some(x) => x,
                None => self.hax_http,
            },
        }
    }
}

impl<P> PartialConfig<P> {
    /// A source that sets nothing.
    pub fn empty() -> (r: Self)
        ensures
            r.config_file is None,
            r.port is None,
            r.game_dir is None,
            r.log_dir is None,
            r.hax is None,
            r.hax_http is None,
    {
        PartialConfig { config_file: None, port: None, game_dir: None, log_dir: None, hax: None, hax_http: None }
    }
}

impl Config<String> {
    /// The defaults.
    pub fn defaults() -> (r: Self)
        ensures
            r.config_file@ == DEFAULT_CONFIG_FILE@,
            r.port == DEFAULT_PORT,
            r.game_dir@ == DEFAULT_GAME_DIR@,
            r.log_dir@ == DEFAULT_LOG_DIR@,
            r.hax == DEFAULT_HAX,
            r.hax_http == DEFAULT_HAX_HTTP,
    {
        Config {
            config_file: String::from_str(DEFAULT_CONFIG_FILE),
            port: DEFAULT_PORT,
            game_dir: String::from_str(DEFAULT_GAME_DIR),
            log_dir: String::from_str(DEFAULT_LOG_DIR),
            hax: DEFAULT_HAX,
            hax_http: DEFAULT_HAX_HTTP,
        }
    }
}

/// The config file to read: the one given on the command line, or the default one.
pub fn config_path<'a, P>(defaults: &'a Config<P>, cli_config: &'a PartialConfig<P>) -> (r: &'a P)
    ensures
        *r == or_else(cli_config.config_file, defaults.config_file),
{
    match &cli_config.config_file {
        Some(p) => p,
        None => &defaults.config_file,
    }
}

/// The configuration: each field is taken from the command line if it sets it, else from the
/// config file if it sets it, else from the defaults.
pub fn get_config<P>(defaults: Config<P>, file_config: PartialConfig<P>, cli_config: PartialConfig<P>) -> (r: Config<P>)
    ensures
        r.config_file == or_else(cli_config.config_file, or_else(file_config.config_file, defaults.config_file)),
        r.port == or_else(cli_config.port, or_else(file_config.port, defaults.port)),
        r.game_dir == or_else(cli_config.game_dir, or_else(file_config.game_dir, defaults.game_dir)),
        r.log_dir == or_else(cli_config.log_dir, or_else(file_config.log_dir, defaults.log_dir)),
        r.hax == or_else(cli_config.hax, or_else(file_config.hax, defaults.hax)),
        r.hax_http == or_else(cli_config.hax_http, or_else(file_config.hax_http, defaults.hax_http)),
{
    defaults.overwrite_with(file_config).overwrite_with(cli_config)
}

/// Overwriting with a source that sets nothing changes nothing.
pub proof fn lemma_overwrite_with_nothing<P>(c: Config<P>, p: PartialConfig<P>)
    requires
        p.config_file is None,
        p.port is None,
        p.game_dir is None,
        p.log_dir is None,
        p.hax is None,
        p.hax_http is None,
    ensures
        (Config {
            config_file: or_else(p.config_file, c.config_file),
            port: or_else(p.port, c.port),
            game_dir: or_else(p.game_dir, c.game_dir),
            log_dir: or_else(p.log_dir, c.log_dir),
            hax: or_else(p.hax, c.hax),
            hax_http: or_else(p.hax_http, c.hax_http),
        }) == c,
{
}

/// The configuration of the desktop app.
#[derive(Debug)]
pub struct AppConfig<P> {
    pub profile_dir: P,
    pub game_dir: P,
    pub log_dir: P,
}

/// The parts of the desktop app's configuration that a source sets.
#[derive(Debug)]
pub struct PartialAppConfig<P> {
    pub profile_dir: Option<P>,
    pub game_dir: Option<P>,
    pub log_dir: Option<P>,
}

/// The name of the option for the directory of the browser profile, and its default.
pub const ARG_PROFILE_DIR: &'static str = "browser_profile";
pub const DEFAULT_PROFILE_DIR: &'static str = "bfhax_data/browser_profile";
/// The name of the app's option for the directory of the game files.
pub const ARG_APP_GAME_DIR: &'static str = "game_files";
/// The name of the app's option for the directory of the logs.
pub const ARG_APP_LOG_DIR: &'static str = "logs";

impl<P> AppConfig<P> {
    /// The configuration with each field that `new` sets taken from it.
    pub fn overwrite_with(self, new: PartialAppConfig<P>) -> (r: AppConfig<P>)
        ensures
            r == (AppConfig {
                profile_dir: or_else(new.profile_dir, self.profile_dir),
                game_dir: or_else(new.game_dir, self.game_dir),
                log_dir: or_else(new.log_dir, self.log_dir),
            }),
    {
        AppConfig {
            profile_dir: match new.profile_dir {
                Some(x) => x,
                None => self.profile_dir,
            },
            game_dir: match new.game_dir {
                Some(x) => x,
                None => self.game_dir,
            },
            log_dir: match new.log_dir {
                Some(x) => x,
                None => self.log_dir,
            },
        }
    }
}

impl AppConfig<String> {
    /// The defaults.
    pub fn defaults() -> (r: Self)
        ensures
            r.profile_dir@ == DEFAULT_PROFILE_DIR@,
            r.game_dir@ == DEFAULT_GAME_DIR@,
            r.log_dir@ == DEFAULT_LOG_DIR@,
    {
        AppConfig {
            profile_dir: String::from_str(DEFAULT_PROFILE_DIR),
            game_dir: String::from_str(DEFAULT_GAME_DIR),
            log_dir: String::from_str(DEFAULT_LOG_DIR),
        }
    }
}

/// The app's configuration: each field is taken from the command line if it sets it, else from
/// the defaults.
pub fn get_app_config<P>(defaults: AppConfig<P>, cli_config: PartialAppConfig<P>) -> (r: AppConfig<P>)
    ensures
        r.profile_dir == or_else(cli_config.profile_dir, defaults.profile_dir),
        r.game_dir == or_else(cli_config.game_dir, defaults.game_dir),
        r.log_dir == or_else(cli_config.log_dir, defaults.log_dir),
{
    defaults.overwrite_with(cli_config)
}

} // verus!

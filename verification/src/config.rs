//! What the server is started with.

use vstd::prelude::*;

use crate::chrome::ChromeConfig;
use crate::key_cli::KeysCmd;
use crate::tunnel::TunnelConfig;

verus! {

/// What the server runs with. `P` is the type of a path.
#[derive(Debug)]
pub struct Config<P> {
    /// The address and port that the server listens on.
    pub bind: String,
    /// The width of a page, in logical pixels, where a request names none.
    pub default_width: u32,
    /// The height of a page, in logical pixels, where a request names none.
    pub default_height: u32,
    /// How many seconds a shot may take where a request names no limit.
    pub render_timeout_secs: u64,
    /// The browser. Without one it is looked for.
    pub chrome_bin: Option<String>,
    /// How many pages the browser renders at a time.
    pub chrome_max_concurrency: usize,
    /// The file with the API keys.
    pub keys_file: P,
    /// Whether targets in private networks may be rendered.
    pub allow_private_targets: bool,
    /// How many tunnels may be open at a time.
    pub max_tunnels: usize,
    /// A tunnel without traffic for this many seconds is dropped.
    pub tunnel_idle_secs: u64,
    /// The secret of the first admin key. Without one it is made up.
    pub bootstrap_admin_key: Option<String>,
}

impl<P> Config<P> {
    /// The limits on tunnels.
    pub fn tunnel_config(&self) -> (r: TunnelConfig)
        ensures
            r.max_tunnels == self.max_tunnels,
            r.idle_timeout_secs == self.tunnel_idle_secs,
    {
        TunnelConfig { max_tunnels: self.max_tunnels, idle_timeout_secs: self.tunnel_idle_secs }
    }

    /// What the browser is started with.
    pub fn chrome_config(&self) -> (r: ChromeConfig)
        ensures
            r.bin == self.chrome_bin,
            r.width == self.default_width,
            r.height == self.default_height,
            r.max_concurrency == self.chrome_max_concurrency,
    {
        ChromeConfig {
            bin: self.chrome_bin.clone(),
            width: self.default_width,
            height: self.default_height,
            max_concurrency: self.chrome_max_concurrency,
        }
    }
}

/// A command on the command line.
#[derive(Debug)]
pub enum Cmd<P> {
    /// Run the server.
    Serve(Config<P>),
    /// Manage the API keys.
    Keys { cmd: KeysCmd },
}

/// The command line.
#[derive(Debug)]
pub struct Cli<P> {
    /// The command, if one is named.
    pub cmd: Option<Cmd<P>>,
    /// What stands before the command, or without one.
    pub serve: Config<P>,
}

/// What is to be done.
#[derive(Debug)]
pub enum Task<P> {
    /// Run the server.
    Serve(Config<P>),
    /// Manage the API keys in this file.
    Keys { cmd: KeysCmd, keys_file: P },
}

impl<P> Cli<P> {
    /// What the command line asks for: the command, or the server where there is
    /// none. The keys are those of the server.
    pub fn task(self) -> (r: Task<P>)
        ensures
            r == (match self.cmd {
                Some(Cmd::Keys { cmd }) => Task::Keys { cmd, keys_file: self.serve.keys_file },
                Some(Cmd::Serve(config)) => Task::Serve(config),
                None => Task::Serve(self.serve),
            }),
    {
        match self.cmd {
            Some(Cmd::Keys { cmd }) => Task::Keys { cmd, keys_file: self.serve.keys_file },
            Some(Cmd::Serve(config)) => Task::Serve(config),
            None => Task::Serve(self.serve),
        }
    }
}

} // verus!

//! Settings kept between invocations.
use vstd::prelude::*;
use vstd::string::*;

verus! {

/// Where the pairs are kept.
#[derive(Clone, Copy, Debug, PartialEq, Eq, Structural)]
pub enum StoreMode {
    File,
    Database,
}

/// Which engine serves the commands.
#[derive(Clone, Copy, Debug, PartialEq, Eq, Structural)]
pub enum SafirEngineType {
    Store,
    Memcache,
}

/// The environment a fresh workspace starts in.
pub open spec fn default_environment() -> Seq<char> {
    "default"@
}

/// The persisted settings.
pub struct SafirConfig {
    /// Name of the active environment.
    pub environment: String,
    /// Backend that holds the pairs.
    pub mode: StoreMode,
    /// Process id of the cache server, when one was started.
    pub memcache_pid: Option<u32>,
    /// Whether the cache server is in use.
    pub memcache_flag: bool,
    /// Plain `key="value"` output without decoration; absent in older files.
    pub headless_mode: Option<bool>,
}

impl SafirConfig {
    /// The settings of a fresh workspace.
    pub open spec fn is_fresh(&self) -> bool {
        &&& self.environment@ == default_environment()
        &&& self.mode == StoreMode::File
        &&& self.memcache_pid is None
        &&& !self.memcache_flag
        &&& self.headless_mode == Some(false)
    }

    /// Settings of a fresh workspace.
    pub fn new() -> (r: Self)
        ensures
            r.is_fresh(),
    {
        SafirConfig {
            environment: String::from_str("default"),
            mode: StoreMode::File,
            memcache_pid: None,
            memcache_flag: false,
            headless_mode: Some(false),
        }
    }

    /// The settings to work with: the defaults when none were stored, else the
    /// stored ones, where an absent headless flag reads as `false`.
    pub fn load(stored: Option<SafirConfig>) -> (r: Self)
        ensures
            match stored {
                None => r.is_fresh(),
                Some(c) => r == (SafirConfig {
                    headless_mode: Some(c.headless_mode.unwrap_or(false)),
                    ..c
                }),
            },
    {
        match stored {
            None => SafirConfig::new(),
            Some(c) => {
                let headless = match c.headless_mode {
                    Some(h) => h,
                    None => false,
                };
                SafirConfig { headless_mode: Some(headless), ..c }
            },
        }
    }

    /// The same settings with the cache server's process id set.
    pub fn pid(self, pid: Option<u32>) -> (r: Self)
        ensures
            r == (SafirConfig { memcache_pid: pid, ..self }),
    {
        SafirConfig { memcache_pid: pid, ..self }
    }

    /// The same settings with the cache-server flag set.
    pub fn set_memcache(self, state: bool) -> (r: Self)
        ensures
            r == (SafirConfig { memcache_flag: state, ..self }),
    {
        SafirConfig { memcache_flag: state, ..self }
    }

    /// Whether output is plain; an absent flag reads as `false`.
    pub fn get_headless_mode(&self) -> (r: bool)
        ensures
            r == (self.headless_mode == Some(true)),
    {
        match self.headless_mode {
            Some(h) => h,
            None => false,
        }
    }

    /// The settings after checking the recorded cache server: when a process id
    /// is recorded but that process is no longer running, the settings were
    /// left behind by a server that ended without cleaning up, and fresh
    /// settings replace them.
    pub fn reconcile_memcache(self, process_running: bool) -> (r: Self)
        ensures
            self.memcache_pid is Some && !process_running ==> r.is_fresh(),
            !(self.memcache_pid is Some && !process_running) ==> r == self,
    {
        if self.memcache_pid.is_some() && !process_running {
            SafirConfig::new()
        } else {
            self
        }
    }

    /// A copy of the settings.
    pub fn snapshot(&self) -> (r: Self)
        ensures
            r == *self,
    {
        SafirConfig {
            environment: self.environment.clone(),
            mode: self.mode,
            memcache_pid: self.memcache_pid,
            memcache_flag: self.memcache_flag,
            headless_mode: self.headless_mode,
        }
    }
}

} // verus!

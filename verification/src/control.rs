//! Refresh control policy: decides, after each fetch or render attempt,
//! whether the dashboard proceeds, sleeps and retries, or terminates.
//! The surrounding process performs the actual fetch, sleep and output;
//! it feeds the outcomes back into these decision functions.
use vstd::prelude::*;

verus! {

/// Read-only configuration fixed at startup.
#[derive(Clone, Copy, PartialEq, Eq, Structural, Debug)]
pub struct Config {
    /// Number of markets to display; at least 1.
    pub top: usize,
    /// Number of events to request upstream; at least 1.
    pub fetch_limit: usize,
    /// Continuous refresh requested.
    pub watch: bool,
    /// Seconds between refresh cycles in watch mode; at least 2.
    pub interval: u64,
    /// Emit machine-readable JSON instead of a table.
    pub json: bool,
}

/// What the process must do next after a fetch or render attempt.
#[derive(Clone, Copy, PartialEq, Eq, Structural, Debug)]
pub enum Decision {
    /// Go on with the current cycle (render the fetched rows).
    Proceed,
    /// Report the failure if any, sleep this many seconds, then fetch again.
    Sleep(u64),
    /// Terminate the process with this exit code.
    Exit(i32),
}

impl Config {
    /// Preconditions the collaborator that parses the command line must
    /// establish before the controller runs.
    pub open spec fn valid(self) -> bool {
        self.top >= 1 && self.fetch_limit >= 1 && self.interval >= 2
    }

    /// Builds a configuration, rejecting values that violate the
    /// controller's preconditions with the dedicated exit code 2.
    pub fn new(top: usize, fetch_limit: usize, watch: bool, interval: u64, json: bool) -> (r:
        Result<Config, i32>)
        ensures
            (top >= 1 && fetch_limit >= 1 && interval >= 2) <==> r is Ok,
            r matches Ok(c) ==> c == (Config { top, fetch_limit, watch, interval, json })
                && c.valid(),
            r matches Err(code) ==> code == 2,
    {
        if top >= 1 && fetch_limit >= 1 && interval >= 2 {
            Ok(Config { top, fetch_limit, watch, interval, json })
        } else {
            Err(2)
        }
    }
}

/// Continuous operation holds only when watching and not in JSON output
/// mode: a JSON request always runs exactly one cycle.
pub open spec fn watch_mode(cfg: Config) -> bool {
    cfg.watch && !cfg.json
}

/// Decision owed after a fetch attempt: success proceeds to rendering;
/// failure retries after the configured interval in watch mode and is
/// fatal (exit code 1) otherwise.
pub open spec fn after_fetch(cfg: Config, fetched: bool) -> Decision {
    if fetched {
        Decision::Proceed
    } else if watch_mode(cfg) {
        Decision::Sleep(cfg.interval)
    } else {
        Decision::Exit(1)
    }
}

/// Decision owed after a render attempt: a render failure is fatal in
/// every mode; success sleeps and refetches in watch mode and terminates
/// the one-shot cycle with exit code 0 otherwise.
pub open spec fn after_render(cfg: Config, rendered: bool) -> Decision {
    if !rendered {
        Decision::Exit(1)
    } else if watch_mode(cfg) {
        Decision::Sleep(cfg.interval)
    } else {
        Decision::Exit(0)
    }
}

pub fn next_after_fetch(cfg: &Config, fetched: bool) -> (d: Decision)
    ensures
        d == after_fetch(*cfg, fetched),
{
    if fetched {
        Decision::Proceed
    } else if cfg.watch && !cfg.json {
        Decision::Sleep(cfg.interval)
    } else {
        Decision::Exit(1)
    }
}

pub fn next_after_render(cfg: &Config, rendered: bool) -> (d: Decision)
    ensures
        d == after_render(*cfg, rendered),
{
    if !rendered {
        Decision::Exit(1)
    } else if cfg.watch && !cfg.json {
        Decision::Sleep(cfg.interval)
    } else {
        Decision::Exit(0)
    }
}

/// Events are requested with at least as many slots as markets shown, so
/// the display can never be starved by a small fetch limit.
pub fn effective_fetch_limit(cfg: &Config) -> (n: usize)
    ensures
        n == if cfg.fetch_limit >= cfg.top {
            cfg.fetch_limit as int
        } else {
            cfg.top as int
        },
        n >= cfg.fetch_limit && n >= cfg.top,
{
    if cfg.fetch_limit >= cfg.top {
        cfg.fetch_limit
    } else {
        cfg.top
    }
}

/// In watch mode no fetch failure terminates the process: every failed
/// cycle yields exactly a sleep of the configured interval followed by a
/// retry, regardless of how many failures preceded it, and a successful
/// cycle likewise continues with the same sleep.
pub proof fn lemma_watch_mode_never_terminates(cfg: Config)
    requires
        watch_mode(cfg),
    ensures
        after_fetch(cfg, false) == Decision::Sleep(cfg.interval),
        after_render(cfg, true) == Decision::Sleep(cfg.interval),
        forall|fetched: bool| !((#[trigger] after_fetch(cfg, fetched)) is Exit),
{
}

} // verus!

//! Restart bookkeeping for the pipeline's long-running tasks.
use vstd::prelude::*;

verus! {

#[derive(Debug, Clone, Copy, PartialEq, Eq)]
pub struct RestartPolicy {
    pub enabled: bool,
    pub backoff_ms: u64,
}

impl RestartPolicy {
    pub fn disabled() -> (r: RestartPolicy)
        ensures
            r == (RestartPolicy { enabled: false, backoff_ms: 0 }),
    {
        RestartPolicy { enabled: false, backoff_ms: 0 }
    }

    pub fn enabled(backoff_ms: u64) -> (r: RestartPolicy)
        ensures
            r == (RestartPolicy { enabled: true, backoff_ms }),
    {
        RestartPolicy { enabled: true, backoff_ms }
    }
}

/// How many times each task was restarted.
#[derive(Debug, Clone, Copy, PartialEq, Eq, Default)]
pub struct SupervisorState {
    pub rtds_restarts: usize,
    pub clob_restarts: usize,
    pub scanner_restarts: usize,
    pub ptb_matcher_restarts: usize,
    pub health_monitor_restarts: usize,
}

impl SupervisorState {
    pub fn new() -> (r: SupervisorState)
        ensures
            r == (SupervisorState {
                rtds_restarts: 0,
                clob_restarts: 0,
                scanner_restarts: 0,
                ptb_matcher_restarts: 0,
                health_monitor_restarts: 0,
            }),
    {
        SupervisorState {
            rtds_restarts: 0,
            clob_restarts: 0,
            scanner_restarts: 0,
            ptb_matcher_restarts: 0,
            health_monitor_restarts: 0,
        }
    }

    pub fn record_rtds_restart(&mut self)
        requires
            old(self).rtds_restarts < usize::MAX,
        ensures
            *final(self) == (SupervisorState { rtds_restarts: (old(self).rtds_restarts + 1) as usize, ..*old(self) }),
    {
        self.rtds_restarts = self.rtds_restarts + 1;
    }

    pub fn record_clob_restart(&mut self)
        requires
            old(self).clob_restarts < usize::MAX,
        ensures
            *final(self) == (SupervisorState { clob_restarts: (old(self).clob_restarts + 1) as usize, ..*old(self) }),
    {
        self.clob_restarts = self.clob_restarts + 1;
    }

    pub fn record_scanner_restart(&mut self)
        requires
            old(self).scanner_restarts < usize::MAX,
        ensures
            *final(self) == (SupervisorState {
                scanner_restarts: (old(self).scanner_restarts + 1) as usize,
                ..*old(self)
            }),
    {
        self.scanner_restarts = self.scanner_restarts + 1;
    }

    pub fn record_ptb_matcher_restart(&mut self)
        requires
            old(self).ptb_matcher_restarts < usize::MAX,
        ensures
            *final(self) == (SupervisorState {
                ptb_matcher_restarts: (old(self).ptb_matcher_restarts + 1) as usize,
                ..*old(self)
            }),
    {
        self.ptb_matcher_restarts = self.ptb_matcher_restarts + 1;
    }

    pub fn record_health_monitor_restart(&mut self)
        requires
            old(self).health_monitor_restarts < usize::MAX,
        ensures
            *final(self) == (SupervisorState {
                health_monitor_restarts: (old(self).health_monitor_restarts + 1) as usize,
                ..*old(self)
            }),
    {
        self.health_monitor_restarts = self.health_monitor_restarts + 1;
    }
}

} // verus!

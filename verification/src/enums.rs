//! Status values that the services report, and their wire names.

use crate::text::str_eq;
use vstd::prelude::*;

verus! {

/// Outcome of a health check.
#[derive(Debug, Clone, Copy, PartialEq, Eq, Structural)]
pub enum HealthStatus {
    Healthy,
    Unhealthy,
}

impl HealthStatus {
    /// The status that `s` names: `Healthy` for `healthy`, `Unhealthy` for
    /// every other text.
    pub fn from_str(s: &str) -> (status: Self)
        ensures
            status == if s@ == "healthy"@ {
                HealthStatus::Healthy
            } else {
                HealthStatus::Unhealthy
            },
    {
        if str_eq(s, "healthy") {
            HealthStatus::Healthy
        } else {
            HealthStatus::Unhealthy
        }
    }

    /// The wire name of the status, in lower case.
    pub fn as_str(&self) -> (name: &'static str)
        ensures
            name@ == match *self {
                HealthStatus::Healthy => "healthy"@,
                HealthStatus::Unhealthy => "unhealthy"@,
            },
    {
        match self {
            HealthStatus::Healthy => "healthy",
            HealthStatus::Unhealthy => "unhealthy",
        }
    }

    /// `Healthy` where `ok` holds, `Unhealthy` where it does not.
    pub fn from_ok(ok: bool) -> (status: Self)
        ensures
            status == if ok {
                HealthStatus::Healthy
            } else {
                HealthStatus::Unhealthy
            },
    {
        if ok {
            HealthStatus::Healthy
        } else {
            HealthStatus::Unhealthy
        }
    }
}

/// Operational state of a service.
#[derive(Debug, Clone, Copy, PartialEq, Eq, Structural)]
pub enum ServiceStatus {
    Pending,
    Running,
    Completed,
    Failed,
}

impl ServiceStatus {
    /// The state that `s` names; `Failed` for a text that names none.
    pub fn from_str(s: &str) -> (status: Self)
        ensures
            status == if s@ == "pending"@ {
                ServiceStatus::Pending
            } else if s@ == "running"@ {
                ServiceStatus::Running
            } else if s@ == "completed"@ {
                ServiceStatus::Completed
            } else {
                ServiceStatus::Failed
            },
    {
        if str_eq(s, "pending") {
            ServiceStatus::Pending
        } else if str_eq(s, "running") {
            ServiceStatus::Running
        } else if str_eq(s, "completed") {
            ServiceStatus::Completed
        } else {
            ServiceStatus::Failed
        }
    }

    /// The wire name of the state, in lower case.
    pub fn as_str(&self) -> (name: &'static str)
        ensures
            name@ == match *self {
                ServiceStatus::Pending => "pending"@,
                ServiceStatus::Running => "running"@,
                ServiceStatus::Completed => "completed"@,
                ServiceStatus::Failed => "failed"@,
            },
    {
        match self {
            ServiceStatus::Pending => "pending",
            ServiceStatus::Running => "running",
            ServiceStatus::Completed => "completed",
            ServiceStatus::Failed => "failed",
        }
    }
}

} // verus!

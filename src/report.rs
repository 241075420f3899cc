//! Inbound reports, their kinds, and the decision whether a report applies
//! to a node of a given mode.
use vstd::prelude::*;

verus! {

/// How a node reports: it pushes load metrics, or its health is asserted locally.
#[derive(Clone, Copy, Debug, PartialEq, Eq, Structural)]
pub enum Mode {
    Push,
    Local,
}

/// Health of a replica, node or probe, from best to worst.
#[derive(Clone, Copy, Debug, PartialEq, Eq, Structural)]
pub enum Status {
    Healthy,
    Sick,
    Dead,
}

/// Rank of a status: a larger rank is a worse status.
pub open spec fn severity(s: Status) -> nat {
    match s {
        Status::Healthy => 0,
        Status::Sick => 1,
        Status::Dead => 2,
    }
}

/// The worse of two statuses.
pub open spec fn worst_of(a: Status, b: Status) -> Status {
    if severity(a) >= severity(b) {
        a
    } else {
        b
    }
}

impl Status {
    /// The worse of `self` and `other`.
    pub fn worst(self, other: Status) -> (r: Status)
        ensures
            r == worst_of(self, other),
    {
        let a: u8 = match self {
            Status::Healthy => 0,
            Status::Sick => 1,
            Status::Dead => 2,
        };
        let b: u8 = match other {
            Status::Healthy => 0,
            Status::Sick => 1,
            Status::Dead => 2,
        };
        if a >= b {
            self
        } else {
            other
        }
    }

    /// The status as the lower-case word shown by text and badge endpoints.
    pub fn as_str(&self) -> (r: &'static str)
        ensures
            r@ == status_word(*self),
    {
        match self {
            Status::Healthy => "healthy",
            Status::Sick => "sick",
            Status::Dead => "dead",
        }
    }
}

/// The word that names a status.
pub open spec fn status_word(s: Status) -> Seq<char> {
    match s {
        Status::Healthy => "healthy"@,
        Status::Sick => "sick"@,
        Status::Dead => "dead"@,
    }
}

/// Load metrics of a push report, in thousandths (0.42 is 420).
#[derive(Clone, Copy, Debug, PartialEq, Eq, Structural)]
pub struct Load {
    pub cpu: i64,
    pub ram: i64,
}

/// A load is well formed when neither metric is negative.
pub open spec fn load_is_valid(l: Load) -> bool {
    l.cpu >= 0 && l.ram >= 0
}

/// Status of a pushed load: sick when a metric is above its threshold.
pub open spec fn load_status(l: Load, cpu_limit: i64, ram_limit: i64) -> Status {
    if l.cpu > cpu_limit || l.ram > ram_limit {
        Status::Sick
    } else {
        Status::Healthy
    }
}

/// What an accepted report observed: a load (push nodes) or a health (local nodes).
#[derive(Clone, Copy, Debug, PartialEq, Eq, Structural)]
pub enum Observation {
    Load(Load),
    Health(Status),
}

/// A report as it arrives: the reporting replica, its reporting period in
/// seconds, and at most one of a load body and a health body.
#[derive(Debug)]
pub struct ReportPayload {
    pub replica: String,
    pub interval: u64,
    pub load: Option<Load>,
    pub health: Option<Status>,
}

/// Why a report, a flush or a toggle was not applied.
#[derive(Clone, Copy, Debug, PartialEq, Eq, Structural)]
pub enum ReportError {
    /// Neither or both of the load and health bodies are present.
    Malformed,
    /// The load body holds a negative metric.
    InvalidLoad,
    /// The report kind does not fit the node's mode.
    WrongMode,
    /// The probe, node or replica is not known.
    NotFound,
}

/// Disposition of a report for a node of mode `mode`, before any mutation.
pub open spec fn classification(
    mode: Mode,
    load: Option<Load>,
    health: Option<Status>,
) -> Result<Observation, ReportError> {
    match (load, health) {
        (Some(l), None) => if mode != Mode::Push {
            Err(ReportError::WrongMode)
        } else if !load_is_valid(l) {
            Err(ReportError::InvalidLoad)
        } else {
            Ok(Observation::Load(l))
        },
        (None, Some(h)) => if mode != Mode::Local {
            Err(ReportError::WrongMode)
        } else {
            Ok(Observation::Health(h))
        },
        _ => Err(ReportError::Malformed),
    }
}

/// Decides whether `payload` applies to a node of mode `mode`, and which
/// observation it carries if so.
pub fn classify(mode: Mode, payload: &ReportPayload) -> (r: Result<Observation, ReportError>)
    ensures
        r == classification(mode, payload.load, payload.health),
{
    match (payload.load, payload.health) {
        (Some(l), None) => {
            if mode != Mode::Push {
                Err(ReportError::WrongMode)
            } else if l.cpu < 0 || l.ram < 0 {
                Err(ReportError::InvalidLoad)
            } else {
                Ok(Observation::Load(l))
            }
        },
        (None, Some(h)) => {
            if mode != Mode::Local {
                Err(ReportError::WrongMode)
            } else {
                Ok(Observation::Health(h))
            }
        },
        _ => Err(ReportError::Malformed),
    }
}

} // verus!

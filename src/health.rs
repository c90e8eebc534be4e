//! Service health report.

use vstd::prelude::*;
use vstd::string::StringExecFns;

verus! {

/// State of each backing service, as reported text.
#[derive(Clone, Debug)]
pub struct ServiceStatus {
    pub database: String,
    pub mongodb: String,
    pub aws: String,
    pub huawei: String,
}

/// Health report of the service.
#[derive(Clone, Debug)]
pub struct HealthResponse {
    pub status: String,
    pub timestamp: String,
    pub version: String,
    pub services: ServiceStatus,
}

/// How a reachable or unreachable store is reported.
pub open spec fn reachability_text(ok: bool) -> Seq<char> {
    if ok {
        "healthy"@
    } else {
        "unhealthy"@
    }
}

/// How a configured or absent integration is reported.
pub open spec fn enablement_text(on: bool) -> Seq<char> {
    if on {
        "enabled"@
    } else {
        "disabled"@
    }
}

fn reachability(ok: bool) -> (r: String)
    ensures
        r@ == reachability_text(ok),
{
    if ok {
        String::from_str("healthy")
    } else {
        String::from_str("unhealthy")
    }
}

fn enablement(on: bool) -> (r: String)
    ensures
        r@ == enablement_text(on),
{
    if on {
        String::from_str("enabled")
    } else {
        String::from_str("disabled")
    }
}

impl ServiceStatus {
    /// The status of each service from the outcome of its probe.
    pub fn from_probes(database_ok: bool, mongodb_ok: bool, aws_on: bool, huawei_on: bool) -> (r:
        Self)
        ensures
            r.database@ == reachability_text(database_ok),
            r.mongodb@ == reachability_text(mongodb_ok),
            r.aws@ == enablement_text(aws_on),
            r.huawei@ == enablement_text(huawei_on),
    {
        ServiceStatus {
            database: reachability(database_ok),
            mongodb: reachability(mongodb_ok),
            aws: enablement(aws_on),
            huawei: enablement(huawei_on),
        }
    }
}

impl HealthResponse {
    /// A report with status `ok`, taken at `timestamp`, for service `version`.
    pub fn new(timestamp: String, version: String, services: ServiceStatus) -> (r: Self)
        ensures
            r.status@ == "ok"@,
            r.timestamp == timestamp,
            r.version == version,
            r.services == services,
    {
        HealthResponse { status: String::from_str("ok"), timestamp, version, services }
    }
}

} // verus!

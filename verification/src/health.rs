//! Per-service health derived from each service's manifest: a service that is
//! down, running another version, or draining is told apart from a ready one,
//! and a manifest whose recorded process is gone reads as unavailable.
//! Reading the manifests and probing processes is left to the application.

use vstd::prelude::*;

use crate::text::str_equal;

verus! {

/// What to read for one service: its name, where its manifest lives, and the
/// version the host expects it to run.
#[derive(Debug, Clone)]
pub struct HealthSpec {
    pub name: String,
    pub manifest_path: String,
    pub expected_version: String,
}

/// A service's observed state.
#[derive(Debug, Clone, Copy, PartialEq, Eq, Structural)]
pub enum ServiceState {
    /// Manifest present, not yet announced as listening.
    Starting,
    /// Live at the expected version and accepting work.
    Ready,
    /// Refusing new work, finishing active work before exit.
    Draining,
    /// Live, but running a version other than the expected one.
    VersionMismatch,
    /// No manifest, or the recorded process is gone.
    Unavailable,
}

/// One service's observed health.
#[derive(Debug, Clone, PartialEq, Eq)]
pub struct ServiceHealth {
    pub name: String,
    /// The running version, or `None` when the service is unavailable.
    pub version: Option<String>,
    pub state: ServiceState,
}

/// The lifecycle status a manifest records.
#[derive(Debug, Clone, Copy, PartialEq, Eq, Structural)]
pub enum ManifestStatus {
    Starting,
    Ready,
    Draining,
}

/// What was read for one service: its manifest's process id, version and
/// status, and whether that process is still alive.
#[derive(Debug, Clone)]
pub struct Observation {
    pub pid: u32,
    pub version: String,
    pub status: ManifestStatus,
    pub alive: bool,
}

/// The health a service gets from what was observed of it (`None`: no
/// readable manifest).
pub open spec fn spec_health(expected: Seq<char>, obs: Option<Observation>) -> (Option<Seq<char>>, ServiceState) {
    match obs {
        Some(o) => if !o.alive {
            (None, ServiceState::Unavailable)
        } else if o.version@ != expected {
            (Some(o.version@), ServiceState::VersionMismatch)
        } else {
            (
                Some(o.version@),
                match o.status {
                    ManifestStatus::Starting => ServiceState::Starting,
                    ManifestStatus::Ready => ServiceState::Ready,
                    ManifestStatus::Draining => ServiceState::Draining,
                },
            )
        },
        None => (None, ServiceState::Unavailable),
    }
}

/// The state a live service at the expected version is in: the one its
/// manifest announces.
pub open spec fn live_state(status: ManifestStatus) -> ServiceState {
    match status {
        ManifestStatus::Starting => ServiceState::Starting,
        ManifestStatus::Ready => ServiceState::Ready,
        ManifestStatus::Draining => ServiceState::Draining,
    }
}

/// `h` is the health `spec_health` gives the service described by `spec`.
pub open spec fn health_of(h: ServiceHealth, spec: HealthSpec, obs: Option<Observation>) -> bool {
    let (version, state) = spec_health(spec.expected_version@, obs);
    &&& h.name@ == spec.name@
    &&& h.state == state
    &&& match version {
        Some(v) => h.version matches Some(x) && x@ == v,
        None => h.version is None,
    }
}

/// The health of one service from what was observed of it.
pub fn service_health(spec: &HealthSpec, obs: Option<Observation>) -> (h: ServiceHealth)
    ensures
        health_of(h, *spec, obs),
        h.name@ == spec.name@,
        match obs {
            None => h.state == ServiceState::Unavailable && h.version is None,
            Some(o) => if !o.alive {
                h.state == ServiceState::Unavailable && h.version is None
            } else if o.version@ != spec.expected_version@ {
                h.state == ServiceState::VersionMismatch && (h.version matches Some(v) && v@ == o.version@)
            } else {
                h.state == live_state(o.status) && (h.version matches Some(v) && v@ == o.version@)
            },
        },
{
    match obs {
        Some(o) => {
            if !o.alive {
                ServiceHealth { name: spec.name.clone(), version: None, state: ServiceState::Unavailable }
            } else if !str_equal(o.version.as_str(), spec.expected_version.as_str()) {
                ServiceHealth { name: spec.name.clone(), version: Some(o.version), state: ServiceState::VersionMismatch }
            } else {
                let state = match o.status {
                    ManifestStatus::Starting => ServiceState::Starting,
                    ManifestStatus::Ready => ServiceState::Ready,
                    ManifestStatus::Draining => ServiceState::Draining,
                };
                ServiceHealth { name: spec.name.clone(), version: Some(o.version), state }
            }
        },
        None => ServiceHealth { name: spec.name.clone(), version: None, state: ServiceState::Unavailable },
    }
}

/// The health of each service, in the order of `specs`, from what was
/// observed of each (`observed[i]` belongs to `specs[i]`).
pub fn derive_service_health(specs: &Vec<HealthSpec>, observed: Vec<Option<Observation>>) -> (r: Vec<ServiceHealth>)
    requires
        observed@.len() == specs@.len(),
    ensures
        r@.len() == specs@.len(),
        forall|i: int| 0 <= i < specs@.len() ==> health_of(#[trigger] r@[i], specs@[i], observed@[i]),
{
    let ghost obs0 = observed@;
    let mut observed = observed;
    let mut rev: Vec<ServiceHealth> = Vec::new();
    let n = specs.len();
    let mut k: usize = n;
    while k > 0
        invariant
            n == specs@.len(),
            obs0.len() == n,
            observed@ == obs0.take(k as int),
            k <= n,
            rev@.len() == n - k,
            forall|t: int| 0 <= t < n - k ==> health_of(#[trigger] rev@[t], specs@[n - 1 - t], obs0[n - 1 - t]),
        decreases k,
    {
        let o = observed.pop().unwrap();
        proof {
            assert(o == obs0[k - 1]);
            assert(observed@ =~= obs0.take(k - 1));
        }
        rev.push(service_health(&specs[k - 1], o));
        k = k - 1;
    }
    let mut out: Vec<ServiceHealth> = Vec::new();
    while rev.len() > 0
        invariant
            n == specs@.len(),
            obs0.len() == n,
            rev@.len() + out@.len() == n,
            forall|t: int| 0 <= t < rev@.len() ==> health_of(#[trigger] rev@[t], specs@[n - 1 - t], obs0[n - 1 - t]),
            forall|t: int| 0 <= t < out@.len() ==> health_of(#[trigger] out@[t], specs@[t], obs0[t]),
        decreases rev.len(),
    {
        let h = rev.pop().unwrap();
        out.push(h);
    }
    out
}

/// A service whose recorded process is gone is unavailable and reports no
/// version, whatever version and status its stale manifest records.
pub proof fn law_dead_process_is_unavailable(h: ServiceHealth, spec: HealthSpec, o: Observation)
    requires
        health_of(h, spec, Some(o)),
        !o.alive,
    ensures
        h.state == ServiceState::Unavailable,
        h.version is None,
{
}

/// A service with no readable manifest is unavailable and reports no version.
pub proof fn law_missing_manifest_is_unavailable(h: ServiceHealth, spec: HealthSpec)
    requires
        health_of(h, spec, None),
    ensures
        h.state == ServiceState::Unavailable,
        h.version is None,
{
}

/// A live service running a version other than the expected one is a version
/// mismatch, and reports the version it runs.
pub proof fn law_live_other_version_is_mismatch(h: ServiceHealth, spec: HealthSpec, o: Observation)
    requires
        health_of(h, spec, Some(o)),
        o.alive,
        o.version@ != spec.expected_version@,
    ensures
        h.state == ServiceState::VersionMismatch,
        h.version matches Some(v) && v@ == o.version@,
{
}

/// A live service at the expected version is in the state its manifest
/// announces, and reports its version.
pub proof fn law_live_expected_version_follows_manifest(h: ServiceHealth, spec: HealthSpec, o: Observation)
    requires
        health_of(h, spec, Some(o)),
        o.alive,
        o.version@ == spec.expected_version@,
    ensures
        o.status == ManifestStatus::Starting ==> h.state == ServiceState::Starting,
        o.status == ManifestStatus::Ready ==> h.state == ServiceState::Ready,
        o.status == ManifestStatus::Draining ==> h.state == ServiceState::Draining,
        h.version matches Some(v) && v@ == spec.expected_version@,
{
}

/// A service is unavailable exactly when its manifest is missing or its
/// recorded process is gone; it reports a version exactly when it is not
/// unavailable.
pub proof fn law_unavailable_iff_not_running(h: ServiceHealth, spec: HealthSpec, obs: Option<Observation>)
    requires
        health_of(h, spec, obs),
    ensures
        h.state == ServiceState::Unavailable <==> (obs is None || !obs->0.alive),
        h.version is None <==> h.state == ServiceState::Unavailable,
{
}

} // verus!

//! Readiness and health of the balancer, as the probes see them.

use vstd::prelude::*;

verus! {

/// Whether the balancer has finished starting up.
#[derive(Debug, Clone, Copy, PartialEq, Eq, Structural)]
pub enum ReadinessState {
    Ready,
    Setup,
}

/// How well the nodes behind the balancer are doing.
#[derive(Debug, Clone, Copy, PartialEq, Eq, Structural)]
pub enum HealthState {
    /// Everything nominal.
    Healthy,
    /// Some nodes do not follow the head, the others do.
    MissingRpcs,
    /// Nothing works.
    Unhealthy,
}

/// The current readiness and health.
#[derive(Debug, Clone, Copy, PartialEq, Eq, Structural)]
pub struct LiveReady {
    pub readiness: ReadinessState,
    pub health: HealthState,
}

/// A change of readiness or of health.
#[derive(Debug, Clone, Copy, PartialEq, Eq, Structural)]
pub enum LiveReadyUpdate {
    Readiness(ReadinessState),
    Health(HealthState),
}

/// The state after one update.
pub open spec fn updated(s: LiveReady, u: LiveReadyUpdate) -> LiveReady {
    match u {
        LiveReadyUpdate::Readiness(r) => LiveReady { readiness: r, ..s },
        LiveReadyUpdate::Health(h) => LiveReady { health: h, ..s },
    }
}

/// The state after the updates, in order.
pub open spec fn updated_all(s: LiveReady, us: Seq<LiveReadyUpdate>) -> LiveReady
    decreases us.len(),
{
    if us.len() == 0 {
        s
    } else {
        updated(updated_all(s, us.drop_last()), us.last())
    }
}

/// The readiness the updates leave: that of the last readiness update, or
/// `r` when there is none.
pub open spec fn last_readiness(r: ReadinessState, us: Seq<LiveReadyUpdate>) -> ReadinessState
    decreases us.len(),
{
    if us.len() == 0 {
        r
    } else {
        match us.last() {
            LiveReadyUpdate::Readiness(x) => x,
            LiveReadyUpdate::Health(_) => last_readiness(r, us.drop_last()),
        }
    }
}

/// The health the updates leave: that of the last health update, or `h`
/// when there is none.
pub open spec fn last_health(h: HealthState, us: Seq<LiveReadyUpdate>) -> HealthState
    decreases us.len(),
{
    if us.len() == 0 {
        h
    } else {
        match us.last() {
            LiveReadyUpdate::Health(x) => x,
            LiveReadyUpdate::Readiness(_) => last_health(h, us.drop_last()),
        }
    }
}

impl LiveReady {
    /// Still starting up, and healthy.
    pub fn new() -> (r: LiveReady)
        ensures
            r == (LiveReady { readiness: ReadinessState::Setup, health: HealthState::Healthy }),
    {
        LiveReady { readiness: ReadinessState::Setup, health: HealthState::Healthy }
    }

    /// Applies one update.
    pub fn apply(&mut self, update: LiveReadyUpdate)
        ensures
            *final(self) == updated(*old(self), update),
    {
        match update {
            LiveReadyUpdate::Readiness(state) => {
                self.readiness = state;
            },
            LiveReadyUpdate::Health(state) => {
                self.health = state;
            },
        }
    }

    /// Applies updates in order.
    pub fn apply_all(&mut self, updates: &Vec<LiveReadyUpdate>)
        ensures
            *final(self) == updated_all(*old(self), updates@),
    {
        let mut i: usize = 0;
        while i < updates.len()
            invariant
                i <= updates@.len(),
                *self == updated_all(*old(self), updates@.take(i as int)),
            decreases updates@.len() - i,
        {
            assert(updates@.take(i + 1).drop_last() =~= updates@.take(i as int));
            self.apply(updates[i]);
            i = i + 1;
        }
        assert(updates@.take(updates@.len() as int) =~= updates@);
    }

    /// The answer to a readiness probe: 200 `OK` once ready, 503 `NOK`
    /// before.
    pub fn readiness_response(&self) -> (r: (u16, &'static str))
        ensures
            r.0 == if self.readiness == ReadinessState::Ready {
                200u16
            } else {
                503u16
            },
            r.1@ == if self.readiness == ReadinessState::Ready {
                "OK"@
            } else {
                "NOK"@
            },
    {
        if self.readiness == ReadinessState::Ready {
            (200, "OK")
        } else {
            (503, "NOK")
        }
    }

    /// The answer to a health probe: 200 `OK` when healthy, 202 `RPC` when
    /// some nodes are missing, 503 `NOK` when unhealthy.
    pub fn health_response(&self) -> (r: (u16, &'static str))
        ensures
            match self.health {
                HealthState::Healthy => r.0 == 200 && r.1@ == "OK"@,
                HealthState::MissingRpcs => r.0 == 202 && r.1@ == "RPC"@,
                HealthState::Unhealthy => r.0 == 503 && r.1@ == "NOK"@,
            },
    {
        match self.health {
            HealthState::Healthy => (200, "OK"),
            HealthState::MissingRpcs => (202, "RPC"),
            HealthState::Unhealthy => (503, "NOK"),
        }
    }
}

impl Default for LiveReady {
    /// Still starting up, and healthy.
    fn default() -> (r: LiveReady)
        ensures
            r == (LiveReady { readiness: ReadinessState::Setup, health: HealthState::Healthy }),
    {
        LiveReady::new()
    }
}

/// Each kind of update only changes its own half of the state, and the last
/// update of a kind decides it: after any updates, the readiness is that of
/// the last readiness update and the health that of the last health update
/// (or what they were, when there was none).
pub proof fn lemma_last_update_wins(s: LiveReady, us: Seq<LiveReadyUpdate>)
    ensures
        updated_all(s, us).readiness == last_readiness(s.readiness, us),
        updated_all(s, us).health == last_health(s.health, us),
    decreases us.len(),
{
    if us.len() > 0 {
        lemma_last_update_wins(s, us.drop_last());
    }
}

/// The answer to a probe when no status could be read: 503 `NOK`.
pub fn unavailable_response() -> (r: (u16, &'static str))
    ensures
        r.0 == 503 && r.1@ == "NOK"@,
{
    (503, "NOK")
}

} // verus!

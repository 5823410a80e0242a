use blutgang::admin::liveready::{unavailable_response, HealthState, LiveReady, LiveReadyUpdate, ReadinessState};

#[test]
fn starts_in_setup_and_healthy() {
    let lr = LiveReady::default();
    assert_eq!(lr.readiness, ReadinessState::Setup);
    assert_eq!(lr.health, HealthState::Healthy);
    assert_eq!(lr.readiness_response(), (503, "NOK"));
    assert_eq!(lr.health_response(), (200, "OK"));
}

#[test]
fn updates_change_only_their_own_half() {
    let mut lr = LiveReady::new();
    lr.apply(LiveReadyUpdate::Readiness(ReadinessState::Ready));
    assert_eq!(lr.readiness_response(), (200, "OK"));
    assert_eq!(lr.health, HealthState::Healthy);
    lr.apply(LiveReadyUpdate::Health(HealthState::MissingRpcs));
    assert_eq!(lr.health_response(), (202, "RPC"));
    assert_eq!(lr.readiness, ReadinessState::Ready);
    lr.apply(LiveReadyUpdate::Health(HealthState::Unhealthy));
    assert_eq!(lr.health_response(), (503, "NOK"));
}

#[test]
fn the_last_update_of_each_kind_wins() {
    let mut lr = LiveReady::new();
    lr.apply_all(&vec![
        LiveReadyUpdate::Health(HealthState::Unhealthy),
        LiveReadyUpdate::Readiness(ReadinessState::Ready),
        LiveReadyUpdate::Health(HealthState::MissingRpcs),
        LiveReadyUpdate::Readiness(ReadinessState::Setup),
        LiveReadyUpdate::Readiness(ReadinessState::Ready),
    ]);
    assert_eq!(lr, LiveReady { readiness: ReadinessState::Ready, health: HealthState::MissingRpcs });
    let mut same = LiveReady::new();
    same.apply_all(&vec![]);
    assert_eq!(same, LiveReady::new());
    assert_eq!(unavailable_response(), (503, "NOK"));
}

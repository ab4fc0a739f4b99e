use galera_address_updater::reconcile::{Action, Event, Reconciler};

fn addrs(items: &[&str]) -> Vec<String> {
    items.iter().map(|s| s.to_string()).collect()
}

/// Runs one cycle and gives the texts handed to the store and the last action.
fn cycle(m: &mut Reconciler, resolved: Option<Vec<String>>, accepted: bool) -> (Vec<String>, Action) {
    assert!(m.is_idle());
    assert_eq!(m.step(Event::Tick), Action::Resolve);
    let mut applies = Vec::new();
    let mut action = match resolved {
        Some(addrs) => m.step(Event::Resolved(addrs)),
        None => m.step(Event::ResolveFailed("no such host".to_string())),
    };
    if let Action::Apply(text) = action.clone() {
        applies.push(text);
        action = m.step(if accepted {
            Event::ApplySucceeded
        } else {
            Event::ApplyFailed("access denied".to_string())
        });
    }
    assert!(m.is_idle());
    (applies, action)
}

#[test]
fn starts_idle_with_the_empty_snapshot() {
    let m = Reconciler::new(addrs(&["10.0.0.1"]), 4567);
    assert!(m.is_idle());
    assert_eq!(m.applied().as_str(), "gcomm://");
}

#[test]
fn first_resolution_is_applied() {
    let mut m = Reconciler::new(addrs(&["10.0.0.1"]), 4567);
    let (applies, last) = cycle(&mut m, Some(addrs(&["10.0.0.1", "10.0.0.2", "10.0.0.3"])), true);
    assert_eq!(applies, addrs(&["gcomm://10.0.0.2:4567,10.0.0.3:4567"]));
    assert_eq!(
        last,
        Action::ReportChange(
            "gcomm://".to_string(),
            "gcomm://10.0.0.2:4567,10.0.0.3:4567".to_string()
        )
    );
    assert_eq!(m.applied().as_str(), "gcomm://10.0.0.2:4567,10.0.0.3:4567");
}

#[test]
fn unchanged_resolution_applies_nothing() {
    let mut m = Reconciler::new(addrs(&["10.0.0.1"]), 4567);
    let r = addrs(&["10.0.0.1", "10.0.0.2"]);
    let (first, _) = cycle(&mut m, Some(r.clone()), true);
    assert_eq!(first.len(), 1);
    let (second, last) = cycle(&mut m, Some(r), true);
    assert!(second.is_empty());
    assert_eq!(last, Action::Unchanged);
    assert_eq!(m.applied().as_str(), "gcomm://10.0.0.2:4567");
}

#[test]
fn empty_first_resolution_is_no_change() {
    let mut m = Reconciler::new(addrs(&["10.0.0.1"]), 4567);
    let (applies, last) = cycle(&mut m, Some(addrs(&["10.0.0.1"])), true);
    assert!(applies.is_empty());
    assert_eq!(last, Action::Unchanged);
}

#[test]
fn change_is_applied_once() {
    let mut m = Reconciler::new(addrs(&[]), 4567);
    cycle(&mut m, Some(addrs(&["10.0.0.2"])), true);
    let (applies, last) = cycle(&mut m, Some(addrs(&["10.0.0.2", "10.0.0.3"])), true);
    assert_eq!(applies, addrs(&["gcomm://10.0.0.2:4567,10.0.0.3:4567"]));
    assert_eq!(
        last,
        Action::ReportChange(
            "gcomm://10.0.0.2:4567".to_string(),
            "gcomm://10.0.0.2:4567,10.0.0.3:4567".to_string()
        )
    );
    assert_eq!(m.applied().as_str(), "gcomm://10.0.0.2:4567,10.0.0.3:4567");
}

#[test]
fn failed_apply_keeps_the_applied_state_and_is_retried() {
    let mut m = Reconciler::new(addrs(&[]), 4567);
    cycle(&mut m, Some(addrs(&["10.0.0.2"])), true);
    let r = addrs(&["10.0.0.3"]);
    let (applies, last) = cycle(&mut m, Some(r.clone()), false);
    assert_eq!(applies, addrs(&["gcomm://10.0.0.3:4567"]));
    assert_eq!(
        last,
        Action::ReportApplyFailure("gcomm://10.0.0.3:4567".to_string(), "access denied".to_string())
    );
    assert_eq!(m.applied().as_str(), "gcomm://10.0.0.2:4567");
    let (again, _) = cycle(&mut m, Some(r.clone()), false);
    assert_eq!(again, addrs(&["gcomm://10.0.0.3:4567"]));
    assert_eq!(m.applied().as_str(), "gcomm://10.0.0.2:4567");
    let (third, _) = cycle(&mut m, Some(r.clone()), true);
    assert_eq!(third, addrs(&["gcomm://10.0.0.3:4567"]));
    assert_eq!(m.applied().as_str(), "gcomm://10.0.0.3:4567");
    let (fourth, _) = cycle(&mut m, Some(r), true);
    assert!(fourth.is_empty());
}

#[test]
fn failed_first_apply_keeps_the_initial_state() {
    let mut m = Reconciler::new(addrs(&[]), 4567);
    let (applies, _) = cycle(&mut m, Some(addrs(&["10.0.0.2"])), false);
    assert_eq!(applies.len(), 1);
    assert_eq!(m.applied().as_str(), "gcomm://");
}

#[test]
fn membership_becoming_empty_is_applied_once() {
    let mut m = Reconciler::new(addrs(&["10.0.0.1"]), 4567);
    cycle(&mut m, Some(addrs(&["10.0.0.1", "10.0.0.2"])), true);
    assert_eq!(m.applied().as_str(), "gcomm://10.0.0.2:4567");
    let (applies, last) = cycle(&mut m, Some(addrs(&["10.0.0.1"])), true);
    assert_eq!(applies, addrs(&["gcomm://"]));
    assert_eq!(
        last,
        Action::ReportChange("gcomm://10.0.0.2:4567".to_string(), "gcomm://".to_string())
    );
    assert_eq!(m.applied().as_str(), "gcomm://");
    let (next, _) = cycle(&mut m, Some(addrs(&["10.0.0.1"])), true);
    assert!(next.is_empty());
}

#[test]
fn failed_resolution_leaves_the_applied_state() {
    let mut m = Reconciler::new(addrs(&[]), 4567);
    cycle(&mut m, Some(addrs(&["10.0.0.2"])), true);
    assert_eq!(m.applied().as_str(), "gcomm://10.0.0.2:4567");
    let (applies, last) = cycle(&mut m, None, true);
    assert!(applies.is_empty());
    assert_eq!(last, Action::ReportResolveFailure("no such host".to_string()));
    assert_eq!(m.applied().as_str(), "gcomm://10.0.0.2:4567");
}

#[test]
fn events_out_of_turn_change_nothing() {
    let mut m = Reconciler::new(addrs(&[]), 4567);
    assert_eq!(m.step(Event::ApplySucceeded), Action::OutOfTurn);
    assert_eq!(m.step(Event::ApplyFailed("gone".to_string())), Action::OutOfTurn);
    assert_eq!(m.step(Event::ResolveFailed("gone".to_string())), Action::OutOfTurn);
    assert_eq!(m.step(Event::Resolved(addrs(&["10.0.0.2"]))), Action::OutOfTurn);
    assert!(m.is_idle());
    assert_eq!(m.applied().as_str(), "gcomm://");
    assert_eq!(m.step(Event::Tick), Action::Resolve);
    assert_eq!(m.step(Event::Tick), Action::OutOfTurn);
    assert_eq!(m.step(Event::ApplySucceeded), Action::OutOfTurn);
    assert!(!m.is_idle());
    assert_eq!(
        m.step(Event::Resolved(addrs(&["10.0.0.2"]))),
        Action::Apply("gcomm://10.0.0.2:4567".to_string())
    );
    assert_eq!(m.step(Event::Tick), Action::OutOfTurn);
    assert_eq!(m.step(Event::ResolveFailed("gone".to_string())), Action::OutOfTurn);
    assert_eq!(m.applied().as_str(), "gcomm://");
    assert_eq!(
        m.step(Event::ApplySucceeded),
        Action::ReportChange("gcomm://".to_string(), "gcomm://10.0.0.2:4567".to_string())
    );
    assert_eq!(m.applied().as_str(), "gcomm://10.0.0.2:4567");
}

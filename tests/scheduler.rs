use plugin_example::scheduler::{Scheduler, TriggerSpec};

#[test]
fn sources_fire_on_their_own_intervals() {
    let mut s = Scheduler::new();
    s.add(TriggerSpec::at_interval(10), 0);
    s.add(TriggerSpec::at_interval(25), 0);
    assert_eq!(s.due(5), Vec::<usize>::new());
    assert_eq!(s.due(10), vec![0]);
    assert!(s.finish(0, 12));
    assert_eq!(s.trigger(0).next_due, 20);
    assert_eq!(s.due(25), vec![0, 1]);
}

#[test]
fn no_second_poll_while_one_is_in_flight() {
    let mut s = Scheduler::new();
    s.add(TriggerSpec::at_interval(10), 0);
    assert_eq!(s.due(10), vec![0]);
    assert_eq!(s.due(40), Vec::<usize>::new());
    assert!(s.finish(0, 45));
    assert_eq!(s.trigger(0).next_due, 45);
    assert_eq!(s.due(45), vec![0]);
}

#[test]
fn stop_drains_in_flight_poll() {
    let mut s = Scheduler::new();
    s.add(TriggerSpec::at_interval(10), 0);
    s.add(TriggerSpec::at_interval(10), 5);
    assert_eq!(s.due(10), vec![0]);
    s.stop();
    assert!(s.trigger(1).removed);
    assert!(!s.trigger(0).removed);
    assert!(!s.is_drained());
    assert!(s.finish(0, 11));
    assert!(s.trigger(0).removed);
    assert!(s.is_drained());
    assert_eq!(s.due(100), Vec::<usize>::new());
    assert!(!s.finish(0, 101));
}

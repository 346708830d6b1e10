use breadknife::tray::handle::Tray;
use breadknife::tray::config::TrayConfig;
use breadknife::tray::wheel::{Fanout, TimerWheel, WaitStep};

#[test]
fn ticker_reports_due_deadlines_in_order() {
    let mut w = TimerWheel::new();
    w.wake_at(300);
    w.wake_at(100);
    w.wake_at(200);
    w.wake_at(100);
    assert_eq!(w.deadlines, vec![100, 100, 200, 300]);
    assert!(matches!(w.wait_step(false, 50), WaitStep::SleepUntil(100)));
    match w.wait_step(false, 200) {
        WaitStep::Due(v) => assert_eq!(v, vec![100, 100, 200]),
        _ => panic!("expected due deadlines"),
    }
    assert_eq!(w.deadlines, vec![300]);
    assert!(matches!(w.wait_step(true, 1000), WaitStep::Stopped));
    assert_eq!(w.deadlines, vec![300]);
    assert!(matches!(w.wait_step(false, 300), WaitStep::Due(v) if v == vec![300]));
    assert!(matches!(w.wait_step(false, 300), WaitStep::SleepForever));
}

#[test]
fn subscribers_get_increasing_numbers_and_dead_ones_are_counted() {
    let mut f: Fanout<&str> = Fanout::new();
    assert_eq!(f.add("a"), 0);
    assert_eq!(f.add("b"), 1);
    assert_eq!(f.add("c"), 2);
    f.remove_dead(&vec![1, 7]);
    assert_eq!(f.sinks, vec![(0, "a"), (2, "c")]);
    assert_eq!(f.dropped, 2);
    assert_eq!(f.add("d"), 3);
}

#[test]
fn builder_keeps_callbacks_in_registration_order() {
    let b = Tray::builder::<u8>(TrayConfig::default()).on_event(1).on_event(2);
    let (config, callbacks) = b.into_parts();
    assert_eq!(config.debounce_ms, 50);
    assert_eq!(config.timeout_ms, 2000);
    assert_eq!(config.menu_max_depth, 8);
    assert_eq!(callbacks, vec![1, 2]);
}

use blobs::driver::{Action, Event, Ticker};

#[test]
fn timer_advances_by_interval() {
    let mut t = Ticker::new(10);
    assert_eq!(t.on_event(Event::TimerFired), Action::Advance { dt_millis: 10 });
    assert_eq!(t.on_event(Event::TimerFired), Action::Advance { dt_millis: 10 });
    assert!(t.running);
}

#[test]
fn shutdown_stops_for_good() {
    let mut t = Ticker::new(10);
    assert_eq!(t.on_event(Event::Shutdown), Action::Stop);
    assert!(!t.running);
    assert_eq!(t.on_event(Event::TimerFired), Action::Stop);
}

use rust_gui::session::{turn, Event, Sent, Turn};

#[test]
fn the_loop_polls_before_every_frame() {
    assert_eq!(turn(Event::Started), Turn::Poll);
    assert_eq!(turn(Event::Polled(false)), Turn::Render);
    assert_eq!(turn(Event::Rendered), Turn::Notify);
    assert_eq!(turn(Event::Notified(Sent::Delivered)), Turn::Poll);
}

#[test]
fn a_window_that_is_to_close_stops_the_loop() {
    assert_eq!(turn(Event::Polled(true)), Turn::Stop);
}

#[test]
fn a_notice_that_was_not_taken_is_no_fault() {
    assert_eq!(turn(Event::Notified(Sent::Full)), Turn::Poll);
}

#[test]
fn a_listener_that_is_gone_is_a_fault() {
    assert_eq!(turn(Event::Notified(Sent::Disconnected)), Turn::Fail);
}

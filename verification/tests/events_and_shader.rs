use fixed_timestep::input::{requests_exit, LoopEvent};
use fixed_timestep::shader::{compile_succeeded, COMPILE_STATUS_OK};

#[test]
fn quit_request_ends_the_loop() {
    assert!(requests_exit(&LoopEvent::QuitRequested));
}

#[test]
fn escape_ends_the_loop() {
    assert!(requests_exit(&LoopEvent::EscapePressed));
}

#[test]
fn other_events_are_forwarded_not_acted_on() {
    assert!(!requests_exit(&LoopEvent::Other));
}

#[test]
fn status_one_means_the_shader_compiled() {
    assert!(compile_succeeded(COMPILE_STATUS_OK));
    assert!(compile_succeeded(1));
}

#[test]
fn any_other_status_means_failure() {
    assert!(!compile_succeeded(0));
    assert!(!compile_succeeded(2));
    assert!(!compile_succeeded(255));
}

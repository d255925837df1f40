use fennec::ax::{no_focused_app_message, no_focused_element_message, pid_source, retry_focus};
use fennec::tap::{listener_reaction, ListenerReaction, SocketRead};
use fennec::text::decimal;

#[test]
fn decimal_matches_display() {
    for n in [0, 7, 10, 42, -1, -25212, 2147483647, -2147483648, 1000000] {
        assert_eq!(decimal(n), n.to_string());
    }
}

#[test]
fn focus_messages() {
    assert_eq!(pid_source(412), "NSWorkspace PID 412");
    assert_eq!(
        no_focused_app_message(-25212),
        "No focused application (AXError: -25212). Check Accessibility permissions in System Settings > Privacy & Security > Accessibility."
    );
    let m = no_focused_element_message("AXFocusedApplication", -25212, -25204, 1);
    assert_eq!(
        m,
        "No focused element (via AXFocusedApplication, app AXError: -25212, system AXError: -25204, main_thread: 1)"
    );
    assert!(retry_focus(0, &m));
    assert!(!retry_focus(0, &no_focused_element_message("NSWorkspace PID 3", -25204, -25205, 0)));
}

#[test]
fn listener_reactions() {
    assert!(matches!(listener_reaction(true, &SocketRead::Line("TAP".into())), ListenerReaction::Polish));
    assert!(matches!(listener_reaction(true, &SocketRead::Line("noise".into())), ListenerReaction::KeepReading));
    assert!(matches!(listener_reaction(true, &SocketRead::TimedOut), ListenerReaction::KeepReading));
    assert!(matches!(listener_reaction(true, &SocketRead::Failed("reset".into())), ListenerReaction::StopReading));
    assert!(matches!(listener_reaction(false, &SocketRead::Line("TAP".into())), ListenerReaction::StopReading));
}

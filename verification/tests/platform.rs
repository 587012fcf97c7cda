use shashin::platform::MacOSScreenCapture;
use shashin::scripting::{export_reply, open_reply, rotate_reply, ScriptEvent};

#[test]
fn macos_capture_is_not_implemented_yet() {
    let cap = MacOSScreenCapture::new();
    let img = cap.capture_fullscreen();
    assert_eq!((img.width, img.height, img.data.len()), (0, 0, 0));
    let img = cap.capture_region(1, 2, 3, 4);
    assert_eq!((img.width, img.height, img.data.len()), (0, 0, 0));
    let img = cap.capture_window(7);
    assert_eq!((img.width, img.height, img.data.len()), (0, 0, 0));
}

#[test]
fn script_events_are_distinct() {
    assert_ne!(ScriptEvent::OnStart, ScriptEvent::OnQuit);
    assert_ne!(ScriptEvent::OnQuit, ScriptEvent::OnKey);
}

#[test]
fn script_function_replies() {
    assert_eq!(open_reply("/tmp/test.png"), "opened: /tmp/test.png");
    assert_eq!(rotate_reply(90), "rotated: 90");
    assert_eq!(rotate_reply(-270), "rotated: -270");
    assert_eq!(rotate_reply(i64::MIN), format!("rotated: {}", i64::MIN));
    assert_eq!(export_reply("/tmp/out.jpg", "jpeg"), "exported to /tmp/out.jpg as jpeg");
}

use fennec::tap::{
    helper_plist, install_script, is_tap_message, parse_sensitivity, probe_step, reports_arm64,
    uninstall_command, wants_record_mode, SocketRead, UNINSTALL_SCRIPT,
};

fn args(list: &[&str]) -> Vec<String> {
    list.iter().map(|s| s.to_string()).collect()
}

#[test]
fn sensitivity_from_command_line() {
    assert_eq!(parse_sensitivity(&args(&["fennec-tap"])), "medium");
    assert_eq!(parse_sensitivity(&args(&["fennec-tap", "--sensitivity", "high"])), "high");
    assert_eq!(parse_sensitivity(&args(&["fennec-tap", "--sensitivity", "low"])), "low");
    assert_eq!(parse_sensitivity(&args(&["fennec-tap", "--sensitivity", "extreme"])), "medium");
    assert_eq!(parse_sensitivity(&args(&["fennec-tap", "--sensitivity"])), "medium");
    assert_eq!(
        parse_sensitivity(&args(&["x", "--sensitivity", "bad", "--sensitivity", "low"])),
        "low"
    );
    assert_eq!(
        parse_sensitivity(&args(&["x", "--sensitivity", "high", "--sensitivity", "low"])),
        "high"
    );
}

#[test]
fn record_mode_flag() {
    assert!(wants_record_mode(&args(&["fennec-tap", "--record"])));
    assert!(!wants_record_mode(&args(&["fennec-tap", "--recording"])));
    assert!(!wants_record_mode(&args(&[])));
}

#[test]
fn tap_lines() {
    assert!(is_tap_message("TAP"));
    assert!(is_tap_message("  TAP\r"));
    assert!(!is_tap_message("TAPS"));
    assert!(!is_tap_message(""));
}

#[test]
fn probe_outcomes() {
    assert_eq!(probe_step(SocketRead::Line("TAP".into())), Some(Ok("Slap detected!".to_string())));
    assert_eq!(probe_step(SocketRead::Line("hello".into())), None);
    assert_eq!(
        probe_step(SocketRead::TimedOut),
        Some(Err("Timeout \u{2014} no double tap detected in 15s".to_string()))
    );
    assert_eq!(
        probe_step(SocketRead::Failed("broken pipe".into())),
        Some(Err("Read error: broken pipe".to_string()))
    );
    assert_eq!(
        probe_step(SocketRead::Closed),
        Some(Err("Connection closed without detecting a tap".to_string()))
    );
}

#[test]
fn arm64_detection() {
    assert!(reports_arm64("1\n"));
    assert!(!reports_arm64("0\n"));
    assert!(!reports_arm64(""));
}

#[test]
fn plist_names_sensitivity() {
    let plist = helper_plist("high");
    let expected = r#"<?xml version="1.0" encoding="UTF-8"?>
<!DOCTYPE plist PUBLIC "-//Apple//DTD PLIST 1.0//EN"
  "http://www.apple.com/DTDs/PropertyList-1.0.dtd">
<plist version="1.0">
<dict>
    <key>Label</key><string>ai.fennec.tap</string>
    <key>ProgramArguments</key>
    <array>
        <string>/usr/local/bin/fennec-tap</string>
        <string>--sensitivity</string>
        <string>high</string>
    </array>
    <key>RunAtLoad</key><true/>
    <key>StandardErrorPath</key><string>/tmp/fennec-tap.log</string>
    <key>StandardOutPath</key><string>/tmp/fennec-tap.log</string>
</dict>
</plist>"#;
    assert_eq!(plist, expected);
}

#[test]
fn install_and_uninstall_scripts() {
    let s = install_script("/App/fennec-tap", "/tmp/ai.fennec.tap.plist");
    let expected = "cp '/App/fennec-tap' /usr/local/bin/fennec-tap && \
         chmod 755 /usr/local/bin/fennec-tap && \
         codesign --force --sign - /usr/local/bin/fennec-tap && \
         mv '/tmp/ai.fennec.tap.plist' /Library/LaunchDaemons/ai.fennec.tap.plist && \
         chown root:wheel /Library/LaunchDaemons/ai.fennec.tap.plist && \
         chmod 644 /Library/LaunchDaemons/ai.fennec.tap.plist && \
         launchctl unload /Library/LaunchDaemons/ai.fennec.tap.plist 2>/dev/null; \
         launchctl load /Library/LaunchDaemons/ai.fennec.tap.plist";
    assert_eq!(s, expected);
    assert_eq!(
        uninstall_command(),
        format!("do shell script \"{}\" with administrator privileges", UNINSTALL_SCRIPT)
    );
}

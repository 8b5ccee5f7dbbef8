use flowdesk::config::ServerConfig;
use flowdesk::supervisor::lipo_lists_arch;
use flowdesk::logparse::parse_log_line;
use flowdesk::settings::AppConfig;
use flowdesk::supervisor::{
    binary_candidates, build_server_args, bundled_binary_candidates, classify_stderr_line, default_binary_path,
    first_present, state_for, stop_wait_step, ExitPlan, StopWait, Lifecycle, Notice, State, StderrAction,
};
use flowdesk::logparse::DerivedState;

#[test]
fn server_args_for_default_settings() {
    let cfg = AppConfig::with_local_name("mac");
    let args = build_server_args(&cfg, "/tmp/server.conf");
    assert_eq!(
        args,
        vec![
            "-f", "--no-tray", "--debug", "INFO", "--name", "mac", "-c", "/tmp/server.conf",
            "--address", ":24800", "--enable-drag-drop"
        ]
    );
}

#[test]
fn server_args_with_interface_and_without_crypto() {
    let mut cfg = AppConfig::with_local_name("mac");
    cfg.interface = "192.168.1.2".to_string();
    cfg.port = 7;
    cfg.crypto_enabled = false;
    cfg.enable_drag_and_drop = false;
    cfg.log_level = "DEBUG2".to_string();
    let args = build_server_args(&cfg, "c.conf");
    assert_eq!(
        args,
        vec![
            "-f", "--no-tray", "--debug", "DEBUG2", "--name", "mac", "-c", "c.conf",
            "--address", "[192.168.1.2]:7", "--disable-crypto"
        ]
    );
}

#[test]
fn binary_lookup_takes_the_first_present_candidate() {
    let c = binary_candidates();
    assert_eq!(c.len(), 6);
    assert_eq!(default_binary_path(&vec![false; 6]), "barriers");
    assert_eq!(default_binary_path(&vec![]), "barriers");
    assert_eq!(
        default_binary_path(&vec![false, false, true, true, false, false]),
        "../../../build/bin/barriers"
    );
    assert_eq!(
        default_binary_path(&vec![false, false, false, false, false, true]),
        "/Applications/Barrier.app/Contents/MacOS/barriers"
    );
    assert_eq!(default_binary_path(&vec![true]), c[0]);
    let own = vec!["a".to_string(), "b".to_string()];
    assert_eq!(first_present(&own, &vec![false, true, true], "z"), "b");
    assert_eq!(first_present(&own, &vec![false], "z"), "z");
}

#[test]
fn state_defaults_and_mapping() {
    assert_eq!(State::default(), State::Stopped);
    assert_eq!(state_for(DerivedState::Connected), State::Connected);
    assert_eq!(state_for(DerivedState::Error), State::Error);
}

#[test]
fn lifecycle_of_a_supervised_server() {
    let mut lc = Lifecycle::new();
    assert_eq!(lc.current_state(), State::Stopped);
    assert!(lc.check_start().is_ok());
    assert!(lc.launched("bin/barriers".to_string()));
    assert_eq!(lc.current_state(), State::Starting);
    assert_eq!(lc.check_start(), Err("server already running".to_string()));

    let line = parse_log_line("[t] NOTE: started server, waiting for clients");
    let notes = lc.apply_log_events(line.events());
    assert!(matches!(notes.as_slice(), [Notice::StateChanged(State::Connected)]));
    assert_eq!(lc.current_state(), State::Connected);
    // The same announcement again changes nothing and is not reported.
    assert!(lc.apply_log_events(line.events()).is_empty());

    let fp = parse_log_line("[t] NOTE: peer fingerprint (SHA1): AA (SHA256): BB");
    match lc.apply_log_events(fp.events()).as_slice() {
        [Notice::FingerprintPrompt { sha1, sha256 }] => {
            assert_eq!(sha1, "AA");
            assert_eq!(sha256, "BB");
        }
        other => panic!("unexpected notices {:?}", other),
    }

    // Unexpected exit: disconnected, restart due.
    assert_eq!(lc.child_exited(Some(0)), ExitPlan::Restart { changed: true });
    assert_eq!(lc.current_state(), State::Disconnected);
    assert!(lc.restart_due());
    assert_eq!(lc.binary_or("barriers"), "bin/barriers");
    assert!(lc.check_start().is_ok());

    // Relaunch, then an explicit stop.
    assert!(lc.launched("bin/barriers".to_string()));
    lc.stop_requested();
    assert!(!lc.restart_due());
    assert_eq!(lc.child_exited(Some(3)), ExitPlan::Stay { changed: true });
    assert_eq!(lc.current_state(), State::Stopped);
    assert!(!lc.stopped());
    assert_eq!(lc.current_state(), State::Stopped);
}

#[test]
fn error_line_moves_to_error() {
    let mut lc = Lifecycle::new();
    lc.launched("b".to_string());
    let line = parse_log_line("[t] ERROR: cannot listen for clients: address already in use");
    let notes = lc.apply_log_events(line.events());
    assert!(matches!(notes.as_slice(), [Notice::StateChanged(State::Error)]));
    assert!(lc.stopped());
    assert!(!lc.running);
}

#[test]
fn set_state_reports_changes_only() {
    let mut lc = Lifecycle::new();
    assert!(!lc.set_state(State::Stopped));
    assert!(lc.set_state(State::Error));
    assert!(!lc.set_state(State::Error));
    assert_eq!(Lifecycle::new().binary_or("barriers"), "barriers");
}

#[test]
fn stderr_lines_are_filtered_and_the_cursor_warning_given_once() {
    let noise = "2026 [WindowTab] Cannot index window tabs due to missing main bundle identifier";
    assert_eq!(classify_stderr_line(noise, false), (StderrAction::Drop, false));
    assert_eq!(
        classify_stderr_line("-[NSWindow makeKeyWindow] called on <NSWindow>", true),
        (StderrAction::Drop, true)
    );
    assert_eq!(classify_stderr_line("starting cocoa loop", false), (StderrAction::Drop, false));
    let cursor = "WARNING: cursor may not be visible";
    let (a1, w1) = classify_stderr_line(cursor, false);
    assert_eq!((a1, w1), (StderrAction::PermissionNeeded, true));
    assert_eq!(classify_stderr_line(cursor, w1), (StderrAction::Drop, true));
    assert_eq!(classify_stderr_line("something else", true), (StderrAction::Forward, true));
    assert_eq!(classify_stderr_line("Cursor May Not Be Visible", false), (StderrAction::Forward, false));
}

#[test]
fn bundled_binary_lookup_order() {
    assert_eq!(
        bundled_binary_candidates(Some("/A.app/Contents"), Some("/A.app/Contents/Resources/")),
        vec![
            "/A.app/Contents/Helpers/bin/barriers",
            "/A.app/Contents/Resources/bin/barriers",
            "/A.app/Contents/Resources/bin/barriers",
        ]
    );
    assert_eq!(bundled_binary_candidates(None, Some("res")), vec!["res/bin/barriers"]);
    assert!(bundled_binary_candidates(None, None).is_empty());
}

#[test]
fn failed_exits_and_launches_are_errors() {
    // Failure statuses, and any non-zero status while still starting.
    for code in [1, 3, 4, 2, -1] {
        let mut lc = Lifecycle::new();
        lc.launched("b".to_string());
        assert_eq!(lc.child_exited(Some(code)), ExitPlan::Restart { changed: true });
        assert_eq!(lc.current_state(), State::Error);
        assert!(lc.restart_due());
    }
    // Once running, only the failure statuses are errors.
    for (code, expected) in [
        (1, State::Error),
        (3, State::Error),
        (4, State::Error),
        (2, State::Disconnected),
        (0, State::Disconnected),
        (-9, State::Disconnected),
    ] {
        let mut lc = Lifecycle::new();
        lc.launched("b".to_string());
        lc.set_state(State::Connected);
        lc.child_exited(Some(code));
        assert_eq!(lc.current_state(), expected, "status {}", code);
    }
    let mut lc = Lifecycle::new();
    lc.launched("b".to_string());
    assert_eq!(lc.child_exited(None), ExitPlan::Restart { changed: true });
    assert_eq!(lc.current_state(), State::Disconnected);
    let mut lc = Lifecycle::new();
    assert!(lc.launch_failed());
    assert_eq!(lc.current_state(), State::Error);
    assert!(!lc.running);
    assert!(!lc.launch_failed());
}

#[test]
fn stop_waits_then_kills() {
    assert_eq!(stop_wait_step(false, 0), StopWait::Exited);
    assert_eq!(stop_wait_step(false, 9000), StopWait::Exited);
    assert_eq!(stop_wait_step(true, 0), StopWait::Wait);
    assert_eq!(stop_wait_step(true, 4999), StopWait::Wait);
    assert_eq!(stop_wait_step(true, 5000), StopWait::Kill);
}

#[test]
fn lipo_architecture_lists() {
    assert!(lipo_lists_arch("x86_64 arm64\n", "x86_64"));
    assert!(lipo_lists_arch("x86_64 arm64\n", "arm64"));
    assert!(!lipo_lists_arch("x86_64h arm64\n", "x86_64"));
    assert!(!lipo_lists_arch("arm64e", "arm64"));
    assert!(!lipo_lists_arch("", "arm64"));
    assert!(!lipo_lists_arch("arm64", ""));
    assert!(!lipo_lists_arch("x86_64 arm64", "x86_64 arm64"));
    assert!(lipo_lists_arch("\tarm64\u{3000}", "arm64"));
}

#[test]
fn defaults_for_a_host() {
    let c = ServerConfig::for_host(None);
    assert_eq!(c.screens[7].name, "flowdesk");
    let c = ServerConfig::for_host(Some("box".to_string()));
    assert_eq!(c.screens[7].name, "box");
    let a = AppConfig::for_host(None);
    assert_eq!(a.screen_name, "flowdesk");
    assert_eq!(a.server_config.screens[7].name, "flowdesk");
    let a = AppConfig::for_host(Some("box".to_string()));
    assert_eq!(a.screen_name, "box");
}

use flowdesk::config::{Direction, Modifier, Screen, ServerConfig};

#[test]
fn default_config_serializes() {
    let cfg = ServerConfig::default();
    let text = cfg.to_barrier_config();
    assert!(text.contains("section: screens"));
    assert!(text.contains("section: links"));
    assert!(text.contains("section: options"));
}

#[test]
fn neighbor_links_are_derived() {
    let mut cfg = ServerConfig::default();
    // Clear the default server cell so the layout is deterministic.
    for s in &mut cfg.screens {
        s.name.clear();
    }
    // Place two named screens side by side at indexes 6 and 7.
    cfg.screens[6] = Screen::named("alpha");
    cfg.screens[7] = Screen::named("beta");
    // In a 5-wide grid: index 6 = col 1, index 7 = col 2.
    let text = cfg.to_barrier_config();
    assert!(text.contains("right = beta"), "missing alpha\u{2192}beta link");
    assert!(text.contains("left = alpha"), "missing beta\u{2192}alpha link");
}

#[test]
fn reconcile_resizes_screens() {
    let mut cfg = ServerConfig::default();
    cfg.num_columns = 4;
    cfg.num_rows = 2;
    cfg.reconcile();
    assert_eq!(cfg.screens.len(), 8);
}

fn blank_grid(cols: u32, rows: u32) -> ServerConfig {
    let mut cfg = ServerConfig::with_server_screen("unused");
    cfg.num_columns = cols;
    cfg.num_rows = rows;
    for s in &mut cfg.screens {
        s.name.clear();
    }
    cfg.reconcile();
    cfg
}

#[test]
fn default_layout_text_is_exact() {
    let cfg = ServerConfig::with_server_screen("host");
    assert_eq!(cfg.screens.len(), 15);
    assert_eq!(cfg.screens[7].name, "host");
    let expected = "# FlowDesk server configuration\n\
section: screens\n    host:\nend\n\n\
section: links\nend\n\n\
section: options\n    screenSaverSync = true\n    win32KeepForeground = true\n    clipboardSharing = true\nend\n";
    assert_eq!(cfg.to_barrier_config(), expected);
}

#[test]
fn two_screens_side_by_side_give_the_sample_config() {
    let mut cfg = ServerConfig::with_server_screen("server");
    cfg.screens[8] = Screen::named("client");
    let expected = "# FlowDesk server configuration
section: screens
    server:
    client:
end

section: links
    server:
        right = client
    client:
        left = server
end

section: options
    screenSaverSync = true
    win32KeepForeground = true
    clipboardSharing = true
end
";
    assert_eq!(cfg.to_barrier_config(), expected);
}

#[test]
fn links_are_listed_by_direction_name() {
    let mut cfg = blank_grid(3, 3);
    cfg.screens[4] = Screen::named("mid");
    cfg.screens[1] = Screen::named("top");
    cfg.screens[3] = Screen::named("west");
    cfg.screens[5] = Screen::named("east");
    cfg.screens[7] = Screen::named("bottom");
    let text = cfg.to_barrier_config();
    let expected_mid = "    mid:\n        down = bottom\n        left = west\n        right = east\n        up = top\n";
    assert!(text.contains(expected_mid), "{}", text);
    assert!(text.contains("    top:\n        down = mid\n"));
    assert!(text.contains("    bottom:\n        up = mid\n"));
    // Diagonal cells are not adjacent, and grid edges do not wrap.
    assert!(text.contains("    west:\n        right = mid\n"));
    assert!(text.contains("    east:\n        left = mid\n"));
}

#[test]
fn row_ends_do_not_wrap() {
    let mut cfg = blank_grid(2, 2);
    cfg.screens[1] = Screen::named("a");
    cfg.screens[2] = Screen::named("b");
    let text = cfg.to_barrier_config();
    // Index 1 is the end of row 0 and index 2 the start of row 1.
    assert!(text.contains("section: links\nend\n"), "{}", text);
}

#[test]
fn all_screen_and_global_options_are_written() {
    let mut cfg = blank_grid(1, 1);
    let mut s = Screen::named("desk");
    s.aliases = vec!["desk.local".to_string(), "desk2".to_string()];
    s.modifiers[1] = Some("alt".to_string());
    s.modifiers[4] = Some("meta".to_string());
    s.fixes.half_duplex_caps_lock = true;
    s.fixes.preserve_focus = true;
    s.switch_corners = [true, false, false, true];
    s.switch_corner_size = 12;
    cfg.screens[0] = s;
    cfg.has_heartbeat = true;
    cfg.heartbeat = 5000;
    cfg.relative_mouse_moves = true;
    cfg.screen_saver_sync = false;
    cfg.win32_keep_foreground = false;
    cfg.clipboard_sharing = false;
    cfg.has_switch_delay = true;
    cfg.switch_delay = 250;
    cfg.has_switch_double_tap = true;
    cfg.switch_double_tap = 0;
    cfg.switch_corners = [false, true, true, false];
    cfg.switch_corner_size = 4294967295;
    let expected = "# FlowDesk server configuration
section: screens
    desk:
        ctrl = alt
        super = meta
        halfDuplexCapsLock = true
        preserveFocus = true
        switchCorners = none + TopLeft + BottomRight
        switchCornerSize = 12
end

section: aliases
    desk:
        desk.local
        desk2
end

section: links
end

section: options
    heartbeat = 5000
    relativeMouseMoves = true
    clipboardSharing = false
    switchDelay = 250
    switchDoubleTap = 0
    switchCorners = none + TopRight + BottomLeft
    switchCornerSize = 4294967295
end
";
    assert_eq!(cfg.to_barrier_config(), expected);
}

#[test]
fn empty_cells_with_aliases_are_not_listed() {
    let mut cfg = blank_grid(2, 1);
    cfg.screens[0].aliases = vec!["ghost".to_string()];
    cfg.screens[1] = Screen::named("real");
    let text = cfg.to_barrier_config();
    assert!(!text.contains("section: aliases"));
    assert!(!text.contains("ghost"));
    assert!(text.contains("    real:\n"));
}

#[test]
fn reconcile_cuts_from_the_end_and_appends_blank_cells() {
    let mut cfg = ServerConfig::with_server_screen("srv");
    cfg.num_columns = 2;
    cfg.num_rows = 4;
    cfg.reconcile();
    assert_eq!(cfg.screens.len(), 8);
    assert_eq!(cfg.screens[7].name, "srv");
    cfg.num_columns = 3;
    cfg.num_rows = 3;
    cfg.reconcile();
    assert_eq!(cfg.screens.len(), 9);
    assert_eq!(cfg.screens[7].name, "srv");
    assert!(cfg.screens[8].is_empty());
    assert!(cfg.screens[8].aliases.is_empty());
    cfg.num_columns = 0;
    cfg.reconcile();
    assert!(cfg.screens.is_empty());
}

#[test]
fn reconcile_leaves_a_fitting_grid_alone() {
    let mut cfg = ServerConfig::with_server_screen("srv");
    cfg.screens[0] = Screen::named("corner");
    cfg.reconcile();
    assert_eq!(cfg.screens.len(), 15);
    assert_eq!(cfg.screens[0].name, "corner");
    assert_eq!(cfg.screens[7].name, "srv");
}

#[test]
fn default_config_names_the_local_machine() {
    let cfg = ServerConfig::default();
    assert_eq!(cfg.num_columns, 5);
    assert_eq!(cfg.num_rows, 3);
    assert_eq!(cfg.screens.len(), 15);
    assert!(!cfg.screens[7].is_empty());
    assert!(cfg.screen_saver_sync && cfg.win32_keep_foreground && cfg.clipboard_sharing);
    assert!(cfg.enable_drag_and_drop && !cfg.has_heartbeat);
}

#[test]
fn fallback_name_is_used_without_a_host_name() {
    assert_eq!(flowdesk::config::fallback_screen_name(None), "flowdesk");
    assert_eq!(flowdesk::config::fallback_screen_name(Some("box".to_string())), "box");
}

#[test]
fn directions_and_modifiers() {
    let all = Direction::all();
    assert_eq!(all, [Direction::Left, Direction::Right, Direction::Up, Direction::Down]);
    let names: Vec<&str> = all.iter().map(|d| d.name()).collect();
    assert_eq!(names, vec!["left", "right", "up", "down"]);
    assert_eq!(Direction::Left.offset(), (-1, 0));
    assert_eq!(Direction::Right.offset(), (1, 0));
    assert_eq!(Direction::Up.offset(), (0, -1));
    assert_eq!(Direction::Down.offset(), (0, 1));
    let mods: Vec<&str> = Modifier::all().iter().map(|m| m.name()).collect();
    assert_eq!(mods, vec!["shift", "ctrl", "alt", "meta", "super"]);
}

#[test]
fn screens_by_name() {
    let s = Screen::named("x");
    assert_eq!(s.name, "x");
    assert!(!s.is_empty());
    assert!(Screen::default().is_empty());
    assert_eq!(s.switch_corner_size, 0);
}

#[test]
fn neighbours_by_cell() {
    let mut cfg = blank_grid(3, 2);
    cfg.screens[0] = Screen::named("a");
    cfg.screens[1] = Screen::named("b");
    cfg.screens[4] = Screen::named("e");
    assert_eq!(cfg.neighbor_name(0, Direction::Right), Some("b".to_string()));
    assert_eq!(cfg.neighbor_name(1, Direction::Left), Some("a".to_string()));
    assert_eq!(cfg.neighbor_name(1, Direction::Down), Some("e".to_string()));
    assert_eq!(cfg.neighbor_name(4, Direction::Up), Some("b".to_string()));
    assert_eq!(cfg.neighbor_name(0, Direction::Down), None);
    assert_eq!(cfg.neighbor_name(2, Direction::Right), None);
    assert_eq!(cfg.neighbor_name(3, Direction::Left), None);
}

#[test]
fn text_ignores_fields_it_does_not_show() {
    let mut a = ServerConfig::with_server_screen("srv");
    let mut b = ServerConfig::with_server_screen("srv");
    b.enable_drag_and_drop = false;
    b.ignore_auto_config_client = true;
    b.heartbeat = 77;
    b.switch_delay = 5;
    b.switch_double_tap = 9;
    b.hotkeys.push(flowdesk::config::Hotkey {
        keys: flowdesk::config::KeySequence(vec!["Ctrl".to_string()]),
        actions: Vec::new(),
    });
    b.screens[0].aliases = vec!["hidden".to_string()];
    b.screens[0].switch_corner_size = 3;
    assert_eq!(a.to_barrier_config(), b.to_barrier_config());
    a.has_heartbeat = true;
    assert_ne!(a.to_barrier_config(), b.to_barrier_config());
}

#[test]
fn reconcile_twice_is_reconcile_once() {
    let mut cfg = ServerConfig::with_server_screen("srv");
    cfg.num_columns = 2;
    cfg.num_rows = 5;
    cfg.reconcile();
    let names: Vec<String> = cfg.screens.iter().map(|s| s.name.clone()).collect();
    cfg.reconcile();
    let again: Vec<String> = cfg.screens.iter().map(|s| s.name.clone()).collect();
    assert_eq!(names, again);
    assert_eq!(cfg.screens.len(), 10);
}

use flowdesk::tray::{
    tray_click_command, tray_menu_command, tray_menu_items, tray_request_name, TrayCommand,
    TrayRequest, WindowCommand,
};

#[test]
fn tray_menu_lists_six_items_in_order() {
    let items = tray_menu_items();
    let expected = [
        ("tray-start", "Start"),
        ("tray-stop", "Stop"),
        ("tray-show-log", "Show Log"),
        ("tray-hide", "Hide"),
        ("tray-show", "Show"),
        ("tray-quit", "Quit"),
    ];
    assert_eq!(items.len(), expected.len());
    for (got, want) in items.iter().zip(expected.iter()) {
        assert_eq!(got.0, want.0);
        assert_eq!(got.1, want.1);
    }
}

#[test]
fn tray_menu_choices() {
    assert_eq!(tray_menu_command("tray-start"), TrayCommand::Request(TrayRequest::Start));
    assert_eq!(tray_menu_command("tray-stop"), TrayCommand::Request(TrayRequest::Stop));
    assert_eq!(tray_menu_command("tray-show-log"), TrayCommand::Request(TrayRequest::ShowLog));
    assert_eq!(tray_menu_command("tray-hide"), TrayCommand::HideWindow);
    assert_eq!(tray_menu_command("tray-show"), TrayCommand::ShowWindow);
    assert_eq!(tray_menu_command("tray-quit"), TrayCommand::Quit);
}

#[test]
fn tray_unknown_menu_id_is_ignored() {
    assert_eq!(tray_menu_command(""), TrayCommand::Ignore);
    assert_eq!(tray_menu_command("tray-sho"), TrayCommand::Ignore);
    assert_eq!(tray_menu_command("tray-show-logs"), TrayCommand::Ignore);
    assert_eq!(tray_menu_command("Start"), TrayCommand::Ignore);
}

#[test]
fn tray_every_menu_item_acts_differently() {
    let cmds: Vec<TrayCommand> = tray_menu_items().iter().map(|(id, _)| tray_menu_command(id)).collect();
    for (i, a) in cmds.iter().enumerate() {
        assert_ne!(*a, TrayCommand::Ignore);
        for b in cmds.iter().skip(i + 1) {
            assert_ne!(a, b);
        }
    }
}

#[test]
fn tray_request_names() {
    assert_eq!(tray_request_name(TrayRequest::Start), "start");
    assert_eq!(tray_request_name(TrayRequest::Stop), "stop");
    assert_eq!(tray_request_name(TrayRequest::ShowLog), "show-log");
}

#[test]
fn tray_double_click_toggles_window() {
    assert_eq!(tray_click_command(true, true, true), WindowCommand::Hide);
    assert_eq!(tray_click_command(true, true, false), WindowCommand::ShowAndFocus);
    assert_eq!(tray_click_command(true, false, true), WindowCommand::Nothing);
    assert_eq!(tray_click_command(true, false, false), WindowCommand::Nothing);
    assert_eq!(tray_click_command(false, true, true), WindowCommand::Nothing);
    assert_eq!(tray_click_command(false, true, false), WindowCommand::Nothing);
}

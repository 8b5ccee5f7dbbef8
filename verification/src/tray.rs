//! The system tray: its tooltip for the supervisor state, its context menu
//! (Start / Stop / Show Log / Hide / Show / Quit) and what a menu choice or
//! a click on the icon asks for.
use vstd::prelude::*;
use crate::supervisor::State;
use crate::logparse::equals_str;

verus! {

/// The tray tooltip for a supervisor state.
pub open spec fn tray_tooltip_spec(state: State) -> Seq<char> {
    match state {
        State::Stopped => "FlowDesk — Stopped"@,
        State::Starting => "FlowDesk — Starting…"@,
        State::Connected => "FlowDesk — Running"@,
        State::Disconnected => "FlowDesk — Disconnected"@,
        State::Error => "FlowDesk — Error"@,
    }
}

pub fn tray_tooltip(state: State) -> (r: &'static str)
    ensures
        r@ == tray_tooltip_spec(state),
{
    match state {
        State::Stopped => "FlowDesk — Stopped",
        State::Starting => "FlowDesk — Starting…",
        State::Connected => "FlowDesk — Running",
        State::Disconnected => "FlowDesk — Disconnected",
        State::Error => "FlowDesk — Error",
    }
}

/// A request that the tray hands to the frontend.
#[derive(Debug, Clone, Copy, PartialEq, Eq, Structural)]
pub enum TrayRequest {
    Start,
    Stop,
    ShowLog,
}

/// What a tray menu choice asks for.
#[derive(Debug, Clone, Copy, PartialEq, Eq, Structural)]
pub enum TrayCommand {
    /// Tell the frontend (event `tray://action`).
    Request(TrayRequest),
    /// Hide the main window.
    HideWindow,
    /// Show the main window and focus it.
    ShowWindow,
    /// Quit the application.
    Quit,
    /// Not a menu item of the tray: do nothing.
    Ignore,
}

/// What a click on the tray icon asks of the main window.
#[derive(Debug, Clone, Copy, PartialEq, Eq, Structural)]
pub enum WindowCommand {
    Hide,
    ShowAndFocus,
    Nothing,
}

/// The tray menu, in order, as (id, label) pairs.
pub open spec fn tray_menu_spec_items() -> Seq<(Seq<char>, Seq<char>)> {
    seq![
        ("tray-start"@, "Start"@),
        ("tray-stop"@, "Stop"@),
        ("tray-show-log"@, "Show Log"@),
        ("tray-hide"@, "Hide"@),
        ("tray-show"@, "Show"@),
        ("tray-quit"@, "Quit"@),
    ]
}

/// What the menu item with id `id` asks for.
pub open spec fn tray_menu_spec(id: Seq<char>) -> TrayCommand {
    if id == "tray-start"@ {
        TrayCommand::Request(TrayRequest::Start)
    } else if id == "tray-stop"@ {
        TrayCommand::Request(TrayRequest::Stop)
    } else if id == "tray-show-log"@ {
        TrayCommand::Request(TrayRequest::ShowLog)
    } else if id == "tray-hide"@ {
        TrayCommand::HideWindow
    } else if id == "tray-show"@ {
        TrayCommand::ShowWindow
    } else if id == "tray-quit"@ {
        TrayCommand::Quit
    } else {
        TrayCommand::Ignore
    }
}

/// The name under which a request reaches the frontend.
pub open spec fn tray_request_spec(q: TrayRequest) -> Seq<char> {
    match q {
        TrayRequest::Start => "start"@,
        TrayRequest::Stop => "stop"@,
        TrayRequest::ShowLog => "show-log"@,
    }
}

/// A double click with the left button toggles the main window's
/// visibility; any other click leaves the window alone.
pub open spec fn tray_click_spec(left_button: bool, double_click: bool, window_visible: bool) -> WindowCommand {
    if left_button && double_click {
        if window_visible {
            WindowCommand::Hide
        } else {
            WindowCommand::ShowAndFocus
        }
    } else {
        WindowCommand::Nothing
    }
}

/// The (id, label) pairs of a menu listing, each taken by its view.
pub open spec fn pair_views(v: Seq<(String, String)>) -> Seq<(Seq<char>, Seq<char>)> {
    v.map_values(|p: (String, String)| (p.0@, p.1@))
}

/// The items of the tray menu, as (id, label) pairs in menu order.
pub fn tray_menu_items() -> (r: Vec<(String, String)>)
    ensures
        pair_views(r@) == tray_menu_spec_items(),
{
    let mut v: Vec<(String, String)> = Vec::new();
    v.push((String::from_str("tray-start"), String::from_str("Start")));
    v.push((String::from_str("tray-stop"), String::from_str("Stop")));
    v.push((String::from_str("tray-show-log"), String::from_str("Show Log")));
    v.push((String::from_str("tray-hide"), String::from_str("Hide")));
    v.push((String::from_str("tray-show"), String::from_str("Show")));
    v.push((String::from_str("tray-quit"), String::from_str("Quit")));
    proof {
        assert(pair_views(v@) =~= tray_menu_spec_items());
    }
    v
}

/// What choosing the menu item `id` asks for.
pub fn tray_menu_command(id: &str) -> (r: TrayCommand)
    ensures
        r == tray_menu_spec(id@),
{
    let c = crate::text::chars_of(id);
    if equals_str(&c, "tray-start") {
        TrayCommand::Request(TrayRequest::Start)
    } else if equals_str(&c, "tray-stop") {
        TrayCommand::Request(TrayRequest::Stop)
    } else if equals_str(&c, "tray-show-log") {
        TrayCommand::Request(TrayRequest::ShowLog)
    } else if equals_str(&c, "tray-hide") {
        TrayCommand::HideWindow
    } else if equals_str(&c, "tray-show") {
        TrayCommand::ShowWindow
    } else if equals_str(&c, "tray-quit") {
        TrayCommand::Quit
    } else {
        TrayCommand::Ignore
    }
}

/// The name of a request in the `tray://action` event.
pub fn tray_request_name(q: TrayRequest) -> (r: &'static str)
    ensures
        r@ == tray_request_spec(q),
{
    match q {
        TrayRequest::Start => "start",
        TrayRequest::Stop => "stop",
        TrayRequest::ShowLog => "show-log",
    }
}

/// What a click on the tray icon asks of the main window.
pub fn tray_click_command(left_button: bool, double_click: bool, window_visible: bool) -> (r:
    WindowCommand)
    ensures
        r == tray_click_spec(left_button, double_click, window_visible),
{
    if left_button && double_click {
        if window_visible {
            WindowCommand::Hide
        } else {
            WindowCommand::ShowAndFocus
        }
    } else {
        WindowCommand::Nothing
    }
}

/// Every item of the tray menu asks for something, and each item asks for
/// something different.
pub proof fn law_menu_items_all_act(k: int, m: int)
    requires
        0 <= k < 6,
        0 <= m < 6,
        k != m,
    ensures
        tray_menu_spec(tray_menu_spec_items()[k].0) != TrayCommand::Ignore,
        tray_menu_spec(tray_menu_spec_items()[k].0) != tray_menu_spec(tray_menu_spec_items()[m].0),
{
    reveal_strlit("tray-start");
    reveal_strlit("tray-stop");
    reveal_strlit("tray-show-log");
    reveal_strlit("tray-hide");
    reveal_strlit("tray-show");
    reveal_strlit("tray-quit");
    assert("tray-start"@.len() == 10 && "tray-stop"@.len() == 9 && "tray-show-log"@.len() == 13);
    assert("tray-hide"@.len() == 9 && "tray-show"@.len() == 9 && "tray-quit"@.len() == 9);
    assert("tray-stop"@[6] != "tray-show"@[6] && "tray-stop"@[5] != "tray-hide"@[5]);
    assert("tray-stop"@[5] != "tray-quit"@[5]);
    assert(tray_menu_spec(tray_menu_spec_items()[0].0) == TrayCommand::Request(TrayRequest::Start));
    assert(tray_menu_spec(tray_menu_spec_items()[1].0) == TrayCommand::Request(TrayRequest::Stop));
    assert(tray_menu_spec(tray_menu_spec_items()[2].0) == TrayCommand::Request(TrayRequest::ShowLog));
    assert(tray_menu_spec(tray_menu_spec_items()[3].0) == TrayCommand::HideWindow);
    assert(tray_menu_spec(tray_menu_spec_items()[4].0) == TrayCommand::ShowWindow);
    assert(tray_menu_spec(tray_menu_spec_items()[5].0) == TrayCommand::Quit);
}

} // verus!

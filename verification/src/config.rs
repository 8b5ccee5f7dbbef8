//! Server configuration model: the screen grid, per-screen options and the
//! global options that the barrier text format carries.
//!
//! The grid is `num_columns * num_rows` cells (5 x 3 by default). Empty cells
//! hold a screen with an empty name, and screen adjacency is derived from the
//! grid position of each cell.
use vstd::prelude::*;

verus! {

pub const DEFAULT_NUM_COLUMNS: u32 = 5;

pub const DEFAULT_NUM_ROWS: u32 = 3;

/// The centre cell of the default 5 x 3 grid.
pub const SERVER_DEFAULT_INDEX: usize = 7;

/// Number of switch corners: TopLeft, TopRight, BottomLeft, BottomRight.
pub const NUM_SWITCH_CORNERS: usize = 4;

/// Host name of this machine as `hostname::get` reports it, when it is valid
/// UTF-8. Nothing is stated of the value: it comes from the operating system.
#[verifier::external_body]
pub(crate) fn local_host_name() -> Option<String> {
    match hostname::get() {
        Ok(h) => h.into_string().ok(),
        Err(_) => None,
    }
}

/// The name used for the local machine: the host name when there is one,
/// otherwise `flowdesk`.
pub fn fallback_screen_name(host: Option<String>) -> (r: String)
    ensures
        r@ == (match host {
            Some(h) => h@,
            None => "flowdesk"@,
        }),
{
    match host {
        Some(h) => h,
        None => String::from_str("flowdesk"),
    }
}

/// A direction on the screen grid.
#[derive(Debug, Clone, Copy, PartialEq, Eq, Structural)]
pub enum Direction {
    Left,
    Right,
    Up,
    Down,
}

/// The name of a direction in the barrier text format.
pub open spec fn direction_name(d: Direction) -> Seq<char> {
    match d {
        Direction::Left => "left"@,
        Direction::Right => "right"@,
        Direction::Up => "up"@,
        Direction::Down => "down"@,
    }
}

/// The (column, row) step of a direction.
pub open spec fn direction_offset(d: Direction) -> (int, int) {
    match d {
        Direction::Left => (-1, 0),
        Direction::Right => (1, 0),
        Direction::Up => (0, -1),
        Direction::Down => (0, 1),
    }
}

/// The direction that points back.
pub open spec fn opposite(d: Direction) -> Direction {
    match d {
        Direction::Left => Direction::Right,
        Direction::Right => Direction::Left,
        Direction::Up => Direction::Down,
        Direction::Down => Direction::Up,
    }
}

impl Direction {
    pub fn all() -> (r: [Direction; 4])
        ensures
            r@ == seq![Direction::Left, Direction::Right, Direction::Up, Direction::Down],
    {
        [Direction::Left, Direction::Right, Direction::Up, Direction::Down]
    }

    pub fn name(self) -> (r: &'static str)
        ensures
            r@ == direction_name(self),
    {
        match self {
            Direction::Left => "left",
            Direction::Right => "right",
            Direction::Up => "up",
            Direction::Down => "down",
        }
    }

    /// Offset (dcol, drow) on the screen grid for this direction.
    pub fn offset(self) -> (r: (i32, i32))
        ensures
            (r.0 as int, r.1 as int) == direction_offset(self),
    {
        match self {
            Direction::Left => (-1, 0),
            Direction::Right => (1, 0),
            Direction::Up => (0, -1),
            Direction::Down => (0, 1),
        }
    }
}

/// Modifiers that can be remapped per screen.
#[derive(Debug, Clone, Copy, PartialEq, Eq, Structural)]
pub enum Modifier {
    Shift,
    Ctrl,
    Alt,
    Meta,
    Super,
}

/// The modifiers in the order in which a screen's remap table is indexed.
pub open spec fn modifier_order() -> Seq<Modifier> {
    seq![Modifier::Shift, Modifier::Ctrl, Modifier::Alt, Modifier::Meta, Modifier::Super]
}

/// The name of a modifier in the barrier text format.
pub open spec fn modifier_name(m: Modifier) -> Seq<char> {
    match m {
        Modifier::Shift => "shift"@,
        Modifier::Ctrl => "ctrl"@,
        Modifier::Alt => "alt"@,
        Modifier::Meta => "meta"@,
        Modifier::Super => "super"@,
    }
}

impl Modifier {
    pub fn all() -> (r: [Modifier; 5])
        ensures
            r@ == modifier_order(),
    {
        [Modifier::Shift, Modifier::Ctrl, Modifier::Alt, Modifier::Meta, Modifier::Super]
    }

    pub fn name(self) -> (r: &'static str)
        ensures
            r@ == modifier_name(self),
    {
        match self {
            Modifier::Shift => "shift",
            Modifier::Ctrl => "ctrl",
            Modifier::Alt => "alt",
            Modifier::Meta => "meta",
            Modifier::Super => "super",
        }
    }
}

/// Per-screen workarounds.
#[derive(Debug, Clone)]
pub struct Fixes {
    pub half_duplex_caps_lock: bool,
    pub half_duplex_num_lock: bool,
    pub half_duplex_scroll_lock: bool,
    pub xtest_is_xinerama_unaware: bool,
    pub preserve_focus: bool,
}

impl Fixes {
    /// No workaround is switched on.
    pub open spec fn is_off(&self) -> bool {
        &&& !self.half_duplex_caps_lock
        &&& !self.half_duplex_num_lock
        &&& !self.half_duplex_scroll_lock
        &&& !self.xtest_is_xinerama_unaware
        &&& !self.preserve_focus
    }
}

impl Default for Fixes {
    fn default() -> (r: Self)
        ensures
            r.is_off(),
    {
        Fixes {
            half_duplex_caps_lock: false,
            half_duplex_num_lock: false,
            half_duplex_scroll_lock: false,
            xtest_is_xinerama_unaware: false,
            preserve_focus: false,
        }
    }
}

/// One cell of the screen grid.
#[derive(Debug, Clone)]
pub struct Screen {
    /// The screen name (matches the `--name` the peer reports). Empty = empty cell.
    pub name: String,
    pub aliases: Vec<String>,
    /// Per-modifier remap target, if any, indexed as `Modifier::all()`.
    pub modifiers: [Option<String>; 5],
    /// Per-corner switch-corner flag.
    pub switch_corners: [bool; 4],
    pub switch_corner_size: u32,
    pub fixes: Fixes,
}

impl Screen {
    /// Every option of the screen has its default value; the name is not
    /// constrained.
    pub open spec fn has_default_options(&self) -> bool {
        &&& self.aliases@.len() == 0
        &&& forall|i: int| 0 <= i < 5 ==> self.modifiers@[i] is None
        &&& forall|i: int| 0 <= i < 4 ==> !self.switch_corners@[i]
        &&& self.switch_corner_size == 0
        &&& self.fixes.is_off()
    }

    /// An empty grid cell with default options.
    pub open spec fn is_blank(&self) -> bool {
        &&& self.name@.len() == 0
        &&& self.has_default_options()
    }

    pub fn is_empty(&self) -> (r: bool)
        ensures
            r == (self.name@.len() == 0),
    {
        self.name.as_str().is_empty()
    }

    /// A screen with the given name and default options.
    pub fn named(name: &str) -> (r: Self)
        ensures
            r.name@ == name@,
            r.has_default_options(),
    {
        let mut s = Screen::default();
        s.name = String::from_str(name);
        s
    }
}

impl Default for Screen {
    fn default() -> (r: Self)
        ensures
            r.is_blank(),
    {
        Screen {
            name: String::new(),
            aliases: Vec::new(),
            modifiers: [None, None, None, None, None],
            switch_corners: [false, false, false, false],
            switch_corner_size: 0,
            fixes: Fixes::default(),
        }
    }
}

#[derive(Debug, Clone)]
pub struct KeySequence(pub Vec<String>);

impl Default for KeySequence {
    fn default() -> (r: Self)
        ensures
            r.0@.len() == 0,
    {
        KeySequence(Vec::new())
    }
}

#[derive(Debug, Clone, Copy, PartialEq, Eq, Structural)]
pub enum ActionType {
    KeyDown,
    KeyUp,
    Keystroke,
    SwitchToScreen,
    SwitchInDirection,
    LockCursorToScreen,
    ToggleScreen,
}

#[derive(Debug, Clone)]
pub struct Action {
    pub kind: ActionType,
    pub target_screen: Option<String>,
    pub direction: Option<Direction>,
    pub keys: KeySequence,
}

#[derive(Debug, Clone)]
pub struct Hotkey {
    pub keys: KeySequence,
    pub actions: Vec<Action>,
}

#[derive(Debug, Clone)]
pub struct ServerConfig {
    pub num_columns: u32,
    pub num_rows: u32,
    /// Length is always num_columns * num_rows. Empty cells have empty names.
    pub screens: Vec<Screen>,
    pub has_heartbeat: bool,
    pub heartbeat: u32,
    pub relative_mouse_moves: bool,
    pub screen_saver_sync: bool,
    pub win32_keep_foreground: bool,
    pub has_switch_delay: bool,
    pub switch_delay: u32,
    pub has_switch_double_tap: bool,
    pub switch_double_tap: u32,
    pub switch_corner_size: u32,
    pub switch_corners: [bool; 4],
    pub ignore_auto_config_client: bool,
    pub enable_drag_and_drop: bool,
    pub clipboard_sharing: bool,
    pub hotkeys: Vec<Hotkey>,
}

impl ServerConfig {
    /// The grid holds exactly one cell per column and row.
    pub open spec fn wf(&self) -> bool {
        self.screens@.len() == self.num_columns * self.num_rows
    }

    /// Every field but the grid has its default value.
    pub open spec fn has_default_options(&self) -> bool {
        &&& !self.has_heartbeat
        &&& self.heartbeat == 0
        &&& !self.relative_mouse_moves
        &&& self.screen_saver_sync
        &&& self.win32_keep_foreground
        &&& !self.has_switch_delay
        &&& self.switch_delay == 0
        &&& !self.has_switch_double_tap
        &&& self.switch_double_tap == 0
        &&& self.switch_corner_size == 0
        &&& forall|i: int| 0 <= i < 4 ==> !self.switch_corners@[i]
        &&& !self.ignore_auto_config_client
        &&& self.enable_drag_and_drop
        &&& self.clipboard_sharing
        &&& self.hotkeys@.len() == 0
    }

    /// The default 5 x 3 grid, blank except for the centre cell, which has
    /// default options; the name of the centre cell is not constrained.
    pub open spec fn is_default_layout(&self) -> bool {
        &&& self.num_columns == DEFAULT_NUM_COLUMNS
        &&& self.num_rows == DEFAULT_NUM_ROWS
        &&& self.screens@.len() == 15
        &&& forall|i: int| 0 <= i < 15 && i != SERVER_DEFAULT_INDEX ==> #[trigger] self.screens@[i].is_blank()
        &&& self.screens@[SERVER_DEFAULT_INDEX as int].has_default_options()
        &&& self.has_default_options()
    }

    /// The default configuration, with the local server in the centre cell
    /// under the given name.
    pub fn with_server_screen(name: &str) -> (r: Self)
        ensures
            r.is_default_layout(),
            r.screens@[SERVER_DEFAULT_INDEX as int].name@ == name@,
            r.wf(),
    {
        let total: usize = (DEFAULT_NUM_COLUMNS as usize) * (DEFAULT_NUM_ROWS as usize);
        assert(total == 15) by (nonlinear_arith)
            requires
                total == DEFAULT_NUM_COLUMNS * DEFAULT_NUM_ROWS,
                DEFAULT_NUM_COLUMNS == 5,
                DEFAULT_NUM_ROWS == 3,
        ;
        let mut screens: Vec<Screen> = Vec::new();
        let mut i: usize = 0;
        while i < total
            invariant
                total == 15,
                i <= total,
                screens@.len() == i,
                forall|j: int| 0 <= j < i && j != SERVER_DEFAULT_INDEX ==> #[trigger] screens@[j].is_blank(),
                i > SERVER_DEFAULT_INDEX ==> screens@[SERVER_DEFAULT_INDEX as int].has_default_options()
                    && screens@[SERVER_DEFAULT_INDEX as int].name@ == name@,
            decreases total - i,
        {
            if i == SERVER_DEFAULT_INDEX {
                screens.push(Screen::named(name));
            } else {
                screens.push(Screen::default());
            }
            i = i + 1;
        }
        ServerConfig {
            num_columns: DEFAULT_NUM_COLUMNS,
            num_rows: DEFAULT_NUM_ROWS,
            screens,
            has_heartbeat: false,
            heartbeat: 0,
            relative_mouse_moves: false,
            screen_saver_sync: true,
            win32_keep_foreground: true,
            has_switch_delay: false,
            switch_delay: 0,
            has_switch_double_tap: false,
            switch_double_tap: 0,
            switch_corner_size: 0,
            switch_corners: [false, false, false, false],
            ignore_auto_config_client: false,
            enable_drag_and_drop: true,
            clipboard_sharing: true,
            hotkeys: Vec::new(),
        }
    }

    /// Ensure `screens` length matches `num_columns * num_rows`: surplus
    /// cells are cut from the end, missing cells are appended blank.
    pub fn reconcile(&mut self)
        requires
            old(self).num_columns * old(self).num_rows <= usize::MAX,
        ensures
            reconciled(*old(self), *final(self)),
    {
        let expected: usize = (self.num_columns as usize) * (self.num_rows as usize);
        resize_screens(&mut self.screens, expected);
    }
}

/// Cuts the grid to `expected` cells, or appends blank cells up to it.
fn resize_screens(screens: &mut Vec<Screen>, expected: usize)
    ensures
        final(screens)@.len() == expected,
        forall|i: int|
            0 <= i < old(screens)@.len() && i < expected ==> #[trigger] final(screens)@[i] == old(screens)@[i],
        forall|i: int|
            old(screens)@.len() <= i < expected ==> #[trigger] final(screens)@[i].is_blank(),
{
    if screens.len() > expected {
        screens.truncate(expected);
    } else {
        let ghost start = screens@;
        while screens.len() < expected
            invariant
                start.len() <= screens@.len() <= expected,
                forall|i: int| 0 <= i < start.len() ==> #[trigger] screens@[i] == start[i],
                forall|i: int| start.len() <= i < screens@.len() ==> #[trigger] screens@[i].is_blank(),
            decreases expected - screens@.len(),
        {
            screens.push(Screen::default());
        }
    }
}

/// `new` is `old` with its grid cut or extended with blank cells to exactly
/// one cell per column and row; every other field is unchanged.
pub open spec fn reconciled(old: ServerConfig, new: ServerConfig) -> bool {
    &&& new.wf()
    &&& new == (ServerConfig { screens: new.screens, ..old })
    &&& forall|i: int|
        0 <= i < old.screens@.len() && i < new.screens@.len() ==> #[trigger] new.screens@[i]
            == old.screens@[i]
    &&& forall|i: int|
        old.screens@.len() <= i < new.screens@.len() ==> #[trigger] new.screens@[i].is_blank()
}

/// Reconciling a configuration whose grid already fits changes nothing.
pub proof fn law_reconcile_keeps_fitting_grid(old: ServerConfig, new: ServerConfig)
    requires
        old.wf(),
        reconciled(old, new),
    ensures
        new.screens@ == old.screens@,
        new == (ServerConfig { screens: new.screens, ..old }),
{
    assert(new.screens@ =~= old.screens@);
}

/// Reconciling twice does no more than reconciling once.
pub proof fn law_reconcile_twice(a: ServerConfig, b: ServerConfig, c: ServerConfig)
    requires
        reconciled(a, b),
        reconciled(b, c),
    ensures
        c.screens@ == b.screens@,
        c == (ServerConfig { screens: c.screens, ..b }),
{
    law_reconcile_keeps_fitting_grid(b, c);
}

/// Opposite directions step back: their offsets cancel, and the opposite
/// of the opposite is the direction itself.
pub proof fn law_opposite_offsets(d: Direction)
    ensures
        direction_offset(opposite(d)).0 == -direction_offset(d).0,
        direction_offset(opposite(d)).1 == -direction_offset(d).1,
        opposite(opposite(d)) == d,
{
}

impl ServerConfig {
    /// The default configuration for a machine with host name `host` (if it
    /// has one): the server sits in the centre cell under that name, or
    /// under `flowdesk` without one.
    pub fn for_host(host: Option<String>) -> (r: Self)
        ensures
            r.is_default_layout(),
            r.wf(),
            r.screens@[SERVER_DEFAULT_INDEX as int].name@ == (match host {
                Some(h) => h@,
                None => "flowdesk"@,
            }),
    {
        let local = fallback_screen_name(host);
        ServerConfig::with_server_screen(local.as_str())
    }
}

impl Default for ServerConfig {
    /// The default configuration, with the local server in the centre cell
    /// under the machine's host name.
    fn default() -> (r: Self)
        ensures
            r.is_default_layout(),
            r.wf(),
    {
        ServerConfig::for_host(local_host_name())
    }
}

} // verus!

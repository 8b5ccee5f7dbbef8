//! Decisions of the process supervisor.
//!
//! The supervisor runs the server binary as a child process, reads its
//! output for state beacons, restarts it one second after an unexpected
//! exit, and stops it by writing a single `S` byte to its stdin, killing it
//! when it has not exited within five seconds. The process handling itself
//! lives with the caller; this module holds the state the supervisor keeps
//! and every decision it takes on an event.
use vstd::prelude::*;
use crate::text::{decimal, push_decimal};
use crate::logparse::{
    CharClass, DerivedState, LogEvent, LogEventView, class_has, contains, contains_str, is_space,
    matches_at, occurs_at,
};
use crate::settings::{AppConfig, join_path, path_join};

verus! {

/// Lifecycle states of the server process.
#[derive(Debug, Clone, Copy, PartialEq, Eq, Structural)]
pub enum State {
    Stopped,
    Starting,
    Connected,
    Disconnected,
    Error,
}

impl Default for State {
    fn default() -> (r: Self)
        ensures
            r == State::Stopped,
    {
        State::Stopped
    }
}

/// The single byte the server reads from stdin to shut down (`S`).
pub const SHUTDOWN_BYTE: u8 = 83;

/// Delay before an unexpectedly exited server is started again.
pub const AUTO_RESTART_DELAY_MS: u64 = 1000;

/// How long a stopping server may take to exit before it is killed.
pub const STOP_GRACE_MS: u64 = 5000;

/// How often a stopping server is checked for having exited.
pub const STOP_POLL_MS: u64 = 100;

/// The supervisor state that a state derived from a log line stands for.
pub open spec fn state_for_spec(d: DerivedState) -> State {
    match d {
        DerivedState::Connected => State::Connected,
        DerivedState::Error => State::Error,
    }
}

pub fn state_for(d: DerivedState) -> (r: State)
    ensures
        r == state_for_spec(d),
{
    match d {
        DerivedState::Connected => State::Connected,
        DerivedState::Error => State::Error,
    }
}

/// The `--address` value: `:port` to listen on every interface, or
/// `[interface]:port`.
pub open spec fn listen_address(config: AppConfig) -> Seq<char> {
    if config.interface@.len() == 0 {
        ":"@ + decimal(config.port as nat)
    } else {
        "["@ + config.interface@ + "]:"@ + decimal(config.port as nat)
    }
}

/// The command line of the server binary.
pub open spec fn server_args(config: AppConfig, config_path: Seq<char>) -> Seq<Seq<char>> {
    let base = seq![
        "-f"@,
        "--no-tray"@,
        "--debug"@,
        config.log_level@,
        "--name"@,
        config.screen_name@,
        "-c"@,
        config_path,
        "--address"@,
        listen_address(config),
    ];
    let a = if !config.crypto_enabled {
        base.push("--disable-crypto"@)
    } else {
        base
    };
    if config.enable_drag_and_drop {
        a.push("--enable-drag-drop"@)
    } else {
        a
    }
}

pub open spec fn string_views(v: Seq<String>) -> Seq<Seq<char>> {
    v.map_values(|s: String| s@)
}

/// Build the server's command-line arguments.
pub fn build_server_args(config: &AppConfig, server_config_path: &str) -> (r: Vec<String>)
    ensures
        string_views(r@) == server_args(*config, server_config_path@),
{
    let mut args: Vec<String> = Vec::new();
    args.push(String::from_str("-f"));
    args.push(String::from_str("--no-tray"));
    args.push(String::from_str("--debug"));
    args.push(String::from_str(config.log_level.as_str()));
    args.push(String::from_str("--name"));
    args.push(config.screen_name.clone());
    args.push(String::from_str("-c"));
    args.push(String::from_str(server_config_path));

    let mut address = String::new();
    if config.interface.as_str().is_empty() {
        address.append(":");
    } else {
        address.append("[");
        address.append(config.interface.as_str());
        address.append("]:");
    }
    push_decimal(&mut address, config.port as u64);
    proof {
        if config.interface@.len() == 0 {
            assert(address@ =~= listen_address(*config));
        } else {
            assert(address@ =~= listen_address(*config));
        }
    }
    args.push(String::from_str("--address"));
    args.push(address);
    if !config.crypto_enabled {
        args.push(String::from_str("--disable-crypto"));
    }
    if config.enable_drag_and_drop {
        args.push(String::from_str("--enable-drag-drop"));
    }
    proof {
        assert(string_views(args@) =~= server_args(*config, server_config_path@));
    }
    args
}

/// The two switches of the command line are independent of each other and
/// of every other setting: after the ten fixed arguments (foreground, no
/// tray, log level, name, configuration file, address) come only switches,
/// `--disable-crypto` exactly when TLS is off and `--enable-drag-drop`
/// exactly when drag and drop is on, one each.
pub proof fn law_switches_follow_settings(config: AppConfig, config_path: Seq<char>)
    ensures
        server_args(config, config_path).len() >= 10,
        server_args(config, config_path).subrange(0, 3) == seq!["-f"@, "--no-tray"@, "--debug"@],
        ({
            let tail = server_args(config, config_path).subrange(
                10,
                server_args(config, config_path).len() as int,
            );
            &&& tail.contains("--enable-drag-drop"@) <==> config.enable_drag_and_drop
            &&& tail.contains("--disable-crypto"@) <==> !config.crypto_enabled
            &&& forall|k: int|
                0 <= k < tail.len() ==> #[trigger] tail[k] == "--enable-drag-drop"@ || tail[k]
                    == "--disable-crypto"@
            &&& tail.len() == (if config.enable_drag_and_drop { 1int } else { 0int }) + (
            if config.crypto_enabled {
                0int
            } else {
                1int
            })
        }),
{
    reveal_strlit("--enable-drag-drop");
    reveal_strlit("--disable-crypto");
    assert("--enable-drag-drop"@.len() != "--disable-crypto"@.len());
    let a = server_args(config, config_path);
    let tail = a.subrange(10, a.len() as int);
    assert(a.subrange(0, 3) =~= seq!["-f"@, "--no-tray"@, "--debug"@]);
    if config.enable_drag_and_drop {
        assert(tail[tail.len() - 1] == "--enable-drag-drop"@);
    }
    if !config.crypto_enabled {
        assert(tail[0] == "--disable-crypto"@);
    }
}

/// Where the server binary is looked for when no bundled copy is found, in
/// order: development build trees, then installed applications.
pub open spec fn binary_candidate_list() -> Seq<Seq<char>> {
    seq![
        "../../../build/flowdesk-helper/bin/barriers"@,
        "../../build/flowdesk-helper/bin/barriers"@,
        "../../../build/bin/barriers"@,
        "../../build/bin/barriers"@,
        "/Applications/FlowDesk.app/Contents/Resources/bin/barriers"@,
        "/Applications/Barrier.app/Contents/MacOS/barriers"@,
    ]
}

/// The binary name used when no candidate exists: it is looked up on PATH.
pub open spec fn binary_on_path() -> Seq<char> {
    "barriers"@
}

pub fn binary_candidates() -> (r: Vec<String>)
    ensures
        string_views(r@) == binary_candidate_list(),
{
    let mut v: Vec<String> = Vec::new();
    v.push(String::from_str("../../../build/flowdesk-helper/bin/barriers"));
    v.push(String::from_str("../../build/flowdesk-helper/bin/barriers"));
    v.push(String::from_str("../../../build/bin/barriers"));
    v.push(String::from_str("../../build/bin/barriers"));
    v.push(String::from_str("/Applications/FlowDesk.app/Contents/Resources/bin/barriers"));
    v.push(String::from_str("/Applications/Barrier.app/Contents/MacOS/barriers"));
    proof {
        assert(string_views(v@) =~= binary_candidate_list());
    }
    v
}

/// `dir/bin/barriers`.
pub open spec fn binary_under(dir: Seq<char>) -> Seq<char> {
    path_join(path_join(dir, "bin"@), "barriers"@)
}

/// Where a bundled server binary is looked for, in order: the bundle's
/// `Helpers` directory (helpers there get no Dock icon of their own), its
/// `Resources` directory, then the resource directory the runtime reports.
pub open spec fn bundled_candidate_list(
    contents_dir: Option<Seq<char>>,
    resource_dir: Option<Seq<char>>,
) -> Seq<Seq<char>> {
    let a = match contents_dir {
        Some(c) => seq![
            binary_under(path_join(c, "Helpers"@)),
            binary_under(path_join(c, "Resources"@)),
        ],
        None => Seq::empty(),
    };
    match resource_dir {
        Some(r) => a.push(binary_under(r)),
        None => a,
    }
}

fn binary_path_under(dir: &str) -> (r: String)
    ensures
        r@ == binary_under(dir@),
{
    let bin = join_path(dir, "bin");
    join_path(bin.as_str(), "barriers")
}

/// The bundled binary candidates, given the bundle's `Contents` directory
/// and the runtime's resource directory, where they are known.
pub fn bundled_binary_candidates(contents_dir: Option<&str>, resource_dir: Option<&str>) -> (r:
    Vec<String>)
    ensures
        string_views(r@) == bundled_candidate_list(
            match contents_dir {
                Some(c) => Some(c@),
                None => None,
            },
            match resource_dir {
                Some(d) => Some(d@),
                None => None,
            },
        ),
{
    let mut v: Vec<String> = Vec::new();
    match contents_dir {
        Some(c) => {
            let helpers = join_path(c, "Helpers");
            v.push(binary_path_under(helpers.as_str()));
            let resources = join_path(c, "Resources");
            v.push(binary_path_under(resources.as_str()));
        },
        None => {},
    }
    match resource_dir {
        Some(d) => {
            v.push(binary_path_under(d));
        },
        None => {},
    }
    proof {
        assert(string_views(v@) =~= bundled_candidate_list(
            match contents_dir {
                Some(c) => Some(c@),
                None => None,
            },
            match resource_dir {
                Some(d) => Some(d@),
                None => None,
            },
        ));
    }
    v
}

/// The first of `candidates` that is marked present (a missing mark counts
/// as absent), or `fallback`.
pub open spec fn first_present_spec(
    candidates: Seq<Seq<char>>,
    present: Seq<bool>,
    fallback: Seq<char>,
) -> Seq<char>
    decreases candidates.len(),
{
    if candidates.len() == 0 {
        fallback
    } else if present.len() > 0 && present[0] {
        candidates[0]
    } else {
        first_present_spec(
            candidates.drop_first(),
            if present.len() > 0 {
                present.drop_first()
            } else {
                present
            },
            fallback,
        )
    }
}

/// The first candidate path that exists, or `fallback`.
pub fn first_present(candidates: &Vec<String>, present: &Vec<bool>, fallback: &str) -> (r: String)
    ensures
        r@ == first_present_spec(string_views(candidates@), present@, fallback@),
{
    let mut i: usize = 0;
    proof {
        assert(string_views(candidates@).skip(0) =~= string_views(candidates@));
        assert(present@.skip(0) =~= present@);
    }
    while i < candidates.len()
        invariant
            i <= candidates@.len(),
            forall|j: int| 0 <= j < i ==> !(j < present@.len() && present@[j]),
            first_present_spec(string_views(candidates@), present@, fallback@)
                == first_present_spec(
                string_views(candidates@).skip(i as int),
                if i <= present@.len() {
                    present@.skip(i as int)
                } else {
                    Seq::empty()
                },
                fallback@,
            ),
        decreases candidates@.len() - i,
    {
        if i < present.len() && present[i] {
            proof {
                assert(string_views(candidates@).skip(i as int)[0] == candidates@[i as int]@);
            }
            return candidates[i].clone();
        }
        proof {
            let cs = string_views(candidates@).skip(i as int);
            let ps = if i <= present@.len() {
                present@.skip(i as int)
            } else {
                Seq::<bool>::empty()
            };
            assert(cs.drop_first() =~= string_views(candidates@).skip(i + 1));
            if i < present@.len() {
                assert(ps.drop_first() =~= present@.skip(i + 1));
            } else if i == present@.len() {
                assert(ps =~= Seq::<bool>::empty());
            }
        }
        i = i + 1;
    }
    proof {
        assert(string_views(candidates@).skip(i as int) =~= Seq::<Seq<char>>::empty());
    }
    String::from_str(fallback)
}

/// Default guess for where the compiled server binary lives, given which of
/// `binary_candidates()` exist: the first that does, else `barriers` on PATH.
pub fn default_binary_path(present: &Vec<bool>) -> (r: String)
    ensures
        r@ == first_present_spec(binary_candidate_list(), present@, binary_on_path()),
{
    let candidates = binary_candidates();
    first_present(&candidates, present, "barriers")
}

/// `w` is a whole white-space separated word of `s` starting at `i`.
pub open spec fn word_at(s: Seq<char>, w: Seq<char>, i: int) -> bool {
    &&& w.len() > 0
    &&& occurs_at(s, w, i)
    &&& forall|k: int| 0 <= k < w.len() ==> !is_space(#[trigger] w[k])
    &&& (i == 0 || is_space(s[i - 1]))
    &&& (i + w.len() == s.len() || is_space(s[i + w.len()]))
}

/// `w` is one of the white-space separated words of `s`.
pub open spec fn has_word(s: Seq<char>, w: Seq<char>) -> bool {
    exists|i: int| #[trigger] word_at(s, w, i)
}

/// Whether the architecture list that `lipo -archs` printed for a binary
/// names `arch`.
pub fn lipo_lists_arch(lipo_output: &str, arch: &str) -> (r: bool)
    ensures
        r == has_word(lipo_output@, arch@),
{
    let s = crate::text::chars_of(lipo_output);
    let w = crate::text::chars_of(arch);
    if w.len() == 0 {
        return false;
    }
    let mut k: usize = 0;
    while k < w.len()
        invariant
            k <= w@.len(),
            w@ == arch@,
            forall|j: int| 0 <= j < k ==> !is_space(#[trigger] w@[j]),
        decreases w@.len() - k,
    {
        if class_has(CharClass::Space, w[k]) {
            assert forall|i: int| !word_at(lipo_output@, arch@, i) by {
                assert(is_space(arch@[k as int]));
            }
            return false;
        }
        k = k + 1;
    }
    let mut i: usize = 0;
    while i < s.len()
        invariant
            i <= s@.len(),
            s@ == lipo_output@,
            w@ == arch@,
            w@.len() > 0,
            forall|j: int| 0 <= j < w@.len() ==> !is_space(#[trigger] w@[j]),
            forall|j: int| 0 <= j < i ==> !word_at(s@, w@, j),
        decreases s@.len() - i,
    {
        let before_ok = i == 0 || class_has(CharClass::Space, s[i - 1]);
        if before_ok && matches_at(&s, &w, i) {
            let end = i + w.len();
            if end == s.len() || class_has(CharClass::Space, s[end]) {
                assert(word_at(s@, w@, i as int));
                return true;
            }
        }
        i = i + 1;
    }
    assert forall|j: int| !word_at(s@, w@, j) by {
        if j >= s@.len() {
            assert(!occurs_at(s@, w@, j));
        }
    }
    false
}

/// What the supervisor reports after it handled an event.
#[derive(Debug, Clone)]
pub enum Notice {
    /// The lifecycle state changed to this one.
    StateChanged(State),
    /// A TLS peer fingerprint needs the user's decision.
    FingerprintPrompt { sha1: String, sha256: String },
}

pub enum NoticeView {
    StateChanged(State),
    FingerprintPrompt { sha1: Seq<char>, sha256: Seq<char> },
}

impl View for Notice {
    type V = NoticeView;

    open spec fn view(&self) -> NoticeView {
        match self {
            Notice::StateChanged(s) => NoticeView::StateChanged(*s),
            Notice::FingerprintPrompt { sha1, sha256 } => NoticeView::FingerprintPrompt {
                sha1: sha1@,
                sha256: sha256@,
            },
        }
    }
}

/// The state after log events, and the notices they cause: a state change
/// is reported only when it changes the state; every fingerprint is reported.
pub open spec fn after_log_events(st: State, events: Seq<LogEventView>) -> (State, Seq<NoticeView>)
    decreases events.len(),
{
    if events.len() == 0 {
        (st, Seq::empty())
    } else {
        let (mid, notes) = after_log_events(st, events.drop_last());
        match events.last() {
            LogEventView::StateChange(d) => {
                let next = state_for_spec(d);
                if next != mid {
                    (next, notes.push(NoticeView::StateChanged(next)))
                } else {
                    (mid, notes)
                }
            },
            LogEventView::FingerprintPrompt { sha1, sha256 } => (
                mid,
                notes.push(NoticeView::FingerprintPrompt { sha1, sha256 }),
            ),
        }
    }
}

/// One more log event, whatever came before it: a state change puts the
/// supervisor in the state it names (Connected for a connection, Error for a
/// failure), from any state, and is announced exactly when that state differs
/// from the one it was in; a fingerprint leaves the state alone and is always
/// passed on.
pub proof fn law_log_event_step(st: State, events: Seq<LogEventView>, e: LogEventView)
    ensures
        ({
            let (before, notes) = after_log_events(st, events);
            let (after, notes2) = after_log_events(st, events.push(e));
            match e {
                LogEventView::StateChange(d) => {
                    let named = if d == DerivedState::Connected {
                        State::Connected
                    } else {
                        State::Error
                    };
                    &&& after == named
                    &&& notes2 == if named != before {
                        notes.push(NoticeView::StateChanged(named))
                    } else {
                        notes
                    }
                },
                LogEventView::FingerprintPrompt { sha1, sha256 } => {
                    &&& after == before
                    &&& notes2 == notes.push(NoticeView::FingerprintPrompt { sha1, sha256 })
                },
            }
        }),
{
    assert(events.push(e).drop_last() =~= events);
}

/// What to do with one line of the server's stderr.
#[derive(Debug, Clone, Copy, PartialEq, Eq, Structural)]
pub enum StderrAction {
    /// Known framework noise, or a repeated warning: drop it.
    Drop,
    /// The pointer cannot be captured: tell the user the server binary needs
    /// the Accessibility permission (done once per run).
    PermissionNeeded,
    /// Forward the line to the log view as a warning.
    Forward,
}

/// Noise that a headless server prints and that says nothing useful.
pub open spec fn is_framework_noise(line: Seq<char>) -> bool {
    contains(line, "missing main bundle identifier"@) || contains(line, "makeKeyWindow"@)
        || contains(line, "starting cocoa loop"@)
}

pub open spec fn is_cursor_warning(line: Seq<char>) -> bool {
    contains(line, "cursor may not be visible"@)
}

/// The action for a stderr line, and whether the cursor warning has been
/// given after it.
pub open spec fn stderr_step(line: Seq<char>, warned: bool) -> (StderrAction, bool) {
    if is_framework_noise(line) {
        (StderrAction::Drop, warned)
    } else if is_cursor_warning(line) {
        if warned {
            (StderrAction::Drop, true)
        } else {
            (StderrAction::PermissionNeeded, true)
        }
    } else {
        (StderrAction::Forward, warned)
    }
}

/// Classify one stderr line, given whether the cursor warning was already given.
pub fn classify_stderr_line(line: &str, cursor_warned: bool) -> (r: (StderrAction, bool))
    ensures
        r == stderr_step(line@, cursor_warned),
{
    let chars = crate::text::chars_of(line);
    if contains_str(&chars, "missing main bundle identifier") || contains_str(
        &chars,
        "makeKeyWindow",
    ) || contains_str(&chars, "starting cocoa loop") {
        (StderrAction::Drop, cursor_warned)
    } else if contains_str(&chars, "cursor may not be visible") {
        if cursor_warned {
            (StderrAction::Drop, true)
        } else {
            (StderrAction::PermissionNeeded, true)
        }
    } else {
        (StderrAction::Forward, cursor_warned)
    }
}

/// The actions for a run of stderr lines, starting from `warned`.
pub open spec fn stderr_run(lines: Seq<Seq<char>>, warned: bool) -> Seq<StderrAction>
    decreases lines.len(),
{
    if lines.len() == 0 {
        Seq::empty()
    } else {
        let (a, w) = stderr_step(lines[0], warned);
        seq![a] + stderr_run(lines.drop_first(), w)
    }
}

/// How many of `actions` ask for the permission.
pub open spec fn permission_prompts(actions: Seq<StderrAction>) -> nat
    decreases actions.len(),
{
    if actions.len() == 0 {
        0
    } else {
        (if actions[0] == StderrAction::PermissionNeeded {
            1nat
        } else {
            0nat
        }) + permission_prompts(actions.drop_first())
    }
}

/// However often the server repeats its cursor warning, the user is asked
/// for the permission at most once per run, and never once it was asked.
pub proof fn law_permission_prompt_at_most_once(lines: Seq<Seq<char>>, warned: bool)
    ensures
        permission_prompts(stderr_run(lines, warned)) <= 1,
        warned ==> permission_prompts(stderr_run(lines, warned)) == 0,
    decreases lines.len(),
{
    if lines.len() > 0 {
        let (a, w) = stderr_step(lines[0], warned);
        law_permission_prompt_at_most_once(lines.drop_first(), w);
        let run = stderr_run(lines, warned);
        assert(run.drop_first() =~= stderr_run(lines.drop_first(), w));
        assert(a == StderrAction::PermissionNeeded ==> w);
    }
}

/// Framework noise is always dropped and other lines that are not cursor
/// warnings are always forwarded, whatever was warned before.
pub proof fn law_stderr_noise_and_forwarding(line: Seq<char>, warned: bool)
    ensures
        is_framework_noise(line) ==> stderr_step(line, warned).0 == StderrAction::Drop,
        !is_framework_noise(line) && !is_cursor_warning(line) ==> stderr_step(line, warned).0
            == StderrAction::Forward,
        stderr_step(line, warned).1 == (warned || (!is_framework_noise(line) && is_cursor_warning(
            line,
        ))),
{
}

/// The state of the last state notice in `notes`, or `st` when there is none.
pub open spec fn last_announced(st: State, notes: Seq<NoticeView>) -> State
    decreases notes.len(),
{
    if notes.len() == 0 {
        st
    } else {
        match notes.last() {
            NoticeView::StateChanged(s) => s,
            _ => last_announced(st, notes.drop_last()),
        }
    }
}

/// The state that log events lead to is the last one they announced: a
/// state the frontend was told of is the state the supervisor is in.
pub proof fn law_state_is_last_announced(st: State, events: Seq<LogEventView>)
    ensures
        after_log_events(st, events).0 == last_announced(st, after_log_events(st, events).1),
    decreases events.len(),
{
    if events.len() > 0 {
        law_state_is_last_announced(st, events.drop_last());
        let (mid, notes) = after_log_events(st, events.drop_last());
        match events.last() {
            LogEventView::StateChange(d) => {
                let next = state_for_spec(d);
                if next != mid {
                    assert(notes.push(NoticeView::StateChanged(next)).last() == NoticeView::StateChanged(next));
                }
            },
            LogEventView::FingerprintPrompt { sha1, sha256 } => {
                let n2 = notes.push(NoticeView::FingerprintPrompt { sha1, sha256 });
                assert(n2.drop_last() =~= notes);
            },
        }
    }
}

/// Exit statuses by which the server reports a failure: 1 (it failed),
/// 3 (bad arguments) and 4 (bad configuration).
pub open spec fn is_failure_status(c: i32) -> bool {
    c == 1 || c == 3 || c == 4
}

/// The state of the server after it exited, given its state before: stopped
/// when the exit was asked for; otherwise an error when it reported a
/// failure status, or exited with any non-zero status while still starting;
/// otherwise (status 0, another status once running, or a signal)
/// disconnected.
pub open spec fn exit_state(before: State, wanted: bool, exit_code: Option<i32>) -> State {
    if !wanted {
        State::Stopped
    } else if exit_code matches Some(c) && (is_failure_status(c) || (before == State::Starting && c
        != 0)) {
        State::Error
    } else {
        State::Disconnected
    }
}

/// The lifecycle fields that the supervisor's decisions depend on.
pub struct LifeView {
    pub state: State,
    pub wanted: bool,
    pub running: bool,
}

/// The events that change the lifecycle.
pub enum LifeEvent {
    /// The server process was spawned.
    Launched,
    /// Spawning the server process failed.
    LaunchFailed,
    /// One stdout line with these events was read.
    Log(Seq<LogEventView>),
    /// The server process exited with this status code (none when a signal
    /// ended it).
    Exited(Option<i32>),
    /// The user asked for a stop.
    StopRequested,
    /// The stop completed.
    Stopped,
}

/// The lifecycle after one event.
pub open spec fn life_step(l: LifeView, e: LifeEvent) -> LifeView {
    match e {
        LifeEvent::Launched => LifeView { state: State::Starting, wanted: true, running: true },
        LifeEvent::LaunchFailed => LifeView { state: State::Error, wanted: l.wanted, running: false },
        LifeEvent::Log(evs) => LifeView {
            state: after_log_events(l.state, evs).0,
            wanted: l.wanted,
            running: l.running,
        },
        LifeEvent::Exited(code) => LifeView {
            state: exit_state(l.state, l.wanted, code),
            wanted: l.wanted,
            running: false,
        },
        LifeEvent::StopRequested => LifeView { state: l.state, wanted: false, running: l.running },
        LifeEvent::Stopped => LifeView { state: State::Stopped, wanted: l.wanted, running: false },
    }
}

/// The lifecycle after a run of events.
pub open spec fn life_run(l: LifeView, events: Seq<LifeEvent>) -> LifeView
    decreases events.len(),
{
    if events.len() == 0 {
        l
    } else {
        life_step(life_run(l, events.drop_last()), events.last())
    }
}

/// After a stop is asked for, the server is not wanted (so no restart is due
/// and a pending one is dropped) until it is launched again, whatever else
/// happens in between.
pub proof fn law_no_restart_after_stop(l: LifeView, events: Seq<LifeEvent>, k: int)
    requires
        0 <= k < events.len(),
        events[k] is StopRequested,
        forall|m: int| k < m < events.len() ==> !(#[trigger] events[m] is Launched),
    ensures
        !life_run(l, events).wanted,
    decreases events.len(),
{
    if k < events.len() - 1 {
        let prev = events.drop_last();
        assert forall|m: int| k < m < prev.len() implies !(#[trigger] prev[m] is Launched) by {
            assert(prev[m] == events[m]);
        }
        law_no_restart_after_stop(l, prev, k);
    }
}

/// A stop always ends with the server stopped and no process supervised.
/// An unexpected exit with a failure status (1, 3, 4), or with any non-zero
/// status while starting, is an error; any other unexpected exit, such as
/// status 2 or a signal once the server runs, leaves it disconnected; an
/// exit after a stop request leaves it stopped.
pub proof fn law_stop_and_exit_states(l: LifeView, code: Option<i32>)
    ensures
        life_step(l, LifeEvent::Stopped).state == State::Stopped,
        !life_step(l, LifeEvent::Stopped).running,
        !life_step(l, LifeEvent::Exited(code)).running,
        !l.wanted ==> life_step(l, LifeEvent::Exited(code)).state == State::Stopped,
        l.wanted && (code matches Some(c) && is_failure_status(c)) ==> life_step(
            l,
            LifeEvent::Exited(code),
        ).state == State::Error,
        l.wanted && l.state == State::Starting && (code matches Some(c) && c != 0) ==> life_step(
            l,
            LifeEvent::Exited(code),
        ).state == State::Error,
        l.wanted && l.state != State::Starting && !(code matches Some(c) && is_failure_status(c))
            ==> life_step(l, LifeEvent::Exited(code)).state == State::Disconnected,
{
}

/// What a stop does while it waits for the server to exit.
#[derive(Debug, Clone, Copy, PartialEq, Eq, Structural)]
pub enum StopWait {
    /// The server process is gone.
    Exited,
    /// Keep waiting; look again after `STOP_POLL_MS`.
    Wait,
    /// The grace period is over: kill the server.
    Kill,
}

/// The stop's decision, given whether the server process is still
/// supervised and how long the stop has waited so far.
pub fn stop_wait_step(child_present: bool, elapsed_ms: u64) -> (r: StopWait)
    ensures
        r == (if !child_present {
            StopWait::Exited
        } else if elapsed_ms >= STOP_GRACE_MS {
            StopWait::Kill
        } else {
            StopWait::Wait
        }),
{
    if !child_present {
        StopWait::Exited
    } else if elapsed_ms >= STOP_GRACE_MS {
        StopWait::Kill
    } else {
        StopWait::Wait
    }
}

/// What the supervisor does once the child process has exited.
#[derive(Debug, Clone, Copy, PartialEq, Eq, Structural)]
pub enum ExitPlan {
    /// The exit was asked for: the server stays stopped.
    Stay { changed: bool },
    /// The exit was unexpected: start the server again after the restart delay.
    Restart { changed: bool },
}

/// The state that the supervisor keeps about the server process.
pub struct Lifecycle {
    pub state: State,
    /// Expected running state: set when the user starts the server and
    /// cleared on an explicit stop; an exit while it is set is unexpected.
    pub wanted: bool,
    /// A child process is being supervised.
    pub running: bool,
    /// The server binary used for the last launch.
    pub binary_path: Option<String>,
}

impl View for Lifecycle {
    type V = LifeView;

    open spec fn view(&self) -> LifeView {
        LifeView { state: self.state, wanted: self.wanted, running: self.running }
    }
}

impl Lifecycle {
    pub fn new() -> (r: Self)
        ensures
            r.state == State::Stopped,
            !r.wanted,
            !r.running,
            r.binary_path is None,
    {
        Lifecycle { state: State::Stopped, wanted: false, running: false, binary_path: None }
    }

    pub fn current_state(&self) -> (r: State)
        ensures
            r == self.state,
    {
        self.state
    }

    /// Move to `s`; the result says whether the state changed (and so
    /// whether the change is to be announced).
    pub fn set_state(&mut self, s: State) -> (changed: bool)
        ensures
            final(self).state == s,
            changed == (old(self).state != s),
            final(self).wanted == old(self).wanted,
            final(self).running == old(self).running,
            final(self).binary_path == old(self).binary_path,
    {
        let changed = self.state != s;
        self.state = s;
        changed
    }

    /// A start is refused while a server process is supervised.
    pub fn check_start(&self) -> (r: Result<(), String>)
        ensures
            r is Err <==> self.running,
            r matches Err(e) ==> e@ == "server already running"@,
    {
        if self.running {
            Err(String::from_str("server already running"))
        } else {
            Ok(())
        }
    }

    /// The server was launched from `binary`: it is now wanted, supervised
    /// and starting.
    pub fn launched(&mut self, binary: String) -> (changed: bool)
        ensures
            final(self)@ == life_step(old(self)@, LifeEvent::Launched),
            final(self).state == State::Starting,
            final(self).wanted,
            final(self).running,
            final(self).binary_path == Some(binary),
            changed == (old(self).state != State::Starting),
    {
        self.wanted = true;
        self.running = true;
        self.binary_path = Some(binary);
        self.set_state(State::Starting)
    }

    /// Apply the events of one stdout line, in order.
    pub fn apply_log_events(&mut self, events: &[LogEvent]) -> (r: Vec<Notice>)
        ensures
            final(self)@ == life_step(
                old(self)@,
                LifeEvent::Log(events@.map_values(|e: LogEvent| e@)),
            ),
            (final(self).state, r@.map_values(|n: Notice| n@)) == after_log_events(
                old(self).state,
                events@.map_values(|e: LogEvent| e@),
            ),
            final(self).wanted == old(self).wanted,
            final(self).running == old(self).running,
            final(self).binary_path == old(self).binary_path,
    {
        let mut notes: Vec<Notice> = Vec::new();
        let ghost evs = events@.map_values(|e: LogEvent| e@);
        let mut i: usize = 0;
        while i < events.len()
            invariant
                i <= events@.len(),
                evs == events@.map_values(|e: LogEvent| e@),
                (self.state, notes@.map_values(|n: Notice| n@)) == after_log_events(
                    old(self).state,
                    evs.take(i as int),
                ),
                self.wanted == old(self).wanted,
                self.running == old(self).running,
                self.binary_path == old(self).binary_path,
            decreases events@.len() - i,
        {
            proof {
                assert(evs.take(i + 1).drop_last() =~= evs.take(i as int));
            }
            let ghost before = notes@;
            match &events[i] {
                LogEvent::StateChange(d) => {
                    let next = state_for(*d);
                    if self.set_state(next) {
                        notes.push(Notice::StateChanged(next));
                        proof {
                            assert(notes@.map_values(|n: Notice| n@) =~= before.map_values(
                                |n: Notice| n@,
                            ).push(NoticeView::StateChanged(next)));
                        }
                    }
                },
                LogEvent::FingerprintPrompt { sha1, sha256 } => {
                    notes.push(
                        Notice::FingerprintPrompt { sha1: sha1.clone(), sha256: sha256.clone() },
                    );
                    proof {
                        assert(notes@.map_values(|n: Notice| n@) =~= before.map_values(
                            |n: Notice| n@,
                        ).push(NoticeView::FingerprintPrompt { sha1: sha1@, sha256: sha256@ }));
                    }
                },
            }
            i = i + 1;
        }
        proof {
            assert(evs.take(events@.len() as int) =~= evs);
        }
        notes
    }

    /// The child process exited with `exit_code` (none when a signal ended
    /// it): it is no longer supervised. If it was not wanted the server is
    /// stopped. Otherwise it is due to be started again, and it is in error
    /// after a failure status (1, 3, 4) or a non-zero status while starting,
    /// disconnected after any other exit.
    pub fn child_exited(&mut self, exit_code: Option<i32>) -> (r: ExitPlan)
        ensures
            final(self)@ == life_step(old(self)@, LifeEvent::Exited(exit_code)),
            !final(self).running,
            final(self).wanted == old(self).wanted,
            final(self).binary_path == old(self).binary_path,
            final(self).state == exit_state(old(self).state, old(self).wanted, exit_code),
            !old(self).wanted ==> r == (ExitPlan::Stay { changed: old(self).state != State::Stopped }),
            old(self).wanted ==> r == (ExitPlan::Restart {
                changed: old(self).state != final(self).state,
            }),
    {
        self.running = false;
        if !self.wanted {
            let changed = self.set_state(State::Stopped);
            ExitPlan::Stay { changed }
        } else {
            let next = match exit_code {
                Some(c) => if c == 1 || c == 3 || c == 4 || (self.state == State::Starting && c
                    != 0) {
                    State::Error
                } else {
                    State::Disconnected
                },
                None => State::Disconnected,
            };
            let changed = self.set_state(next);
            ExitPlan::Restart { changed }
        }
    }

    /// Spawning the server failed: no process is supervised and the server
    /// is in error; the result says whether the state changed.
    pub fn launch_failed(&mut self) -> (changed: bool)
        ensures
            final(self)@ == life_step(old(self)@, LifeEvent::LaunchFailed),
            final(self).state == State::Error,
            !final(self).running,
            final(self).wanted == old(self).wanted,
            final(self).binary_path == old(self).binary_path,
            changed == (old(self).state != State::Error),
    {
        self.running = false;
        self.set_state(State::Error)
    }

    /// When the restart delay has passed: the server is started again only
    /// if it is still wanted.
    pub fn restart_due(&self) -> (r: bool)
        ensures
            r == self.wanted,
    {
        self.wanted
    }

    /// The binary for a relaunch or a permission prompt: the last one used,
    /// else `fallback`.
    pub fn binary_or(&self, fallback: &str) -> (r: String)
        ensures
            r@ == (match self.binary_path {
                Some(b) => b@,
                None => fallback@,
            }),
    {
        match &self.binary_path {
            Some(b) => b.clone(),
            None => String::from_str(fallback),
        }
    }

    /// An explicit stop was asked for: the server is no longer wanted, so a
    /// pending restart is cancelled and its exit is expected.
    pub fn stop_requested(&mut self)
        ensures
            final(self)@ == life_step(old(self)@, LifeEvent::StopRequested),
            !final(self).wanted,
            final(self).state == old(self).state,
            final(self).running == old(self).running,
            final(self).binary_path == old(self).binary_path,
    {
        self.wanted = false;
    }

    /// The stop is complete: no process is supervised and the server is
    /// stopped; the result says whether the state changed.
    pub fn stopped(&mut self) -> (changed: bool)
        ensures
            final(self)@ == life_step(old(self)@, LifeEvent::Stopped),
            final(self).state == State::Stopped,
            !final(self).running,
            final(self).wanted == old(self).wanted,
            final(self).binary_path == old(self).binary_path,
            changed == (old(self).state != State::Stopped),
    {
        self.running = false;
        self.set_state(State::Stopped)
    }
}

} // verus!

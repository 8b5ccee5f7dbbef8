//! Interpretation of the server's stdout lines.
//!
//! A structured line has the shape `[timestamp] LEVEL: message`; anything
//! else is an unstructured line whose whole text is the message. Keywords in
//! the message announce a lifecycle change, and a TLS peer fingerprint line
//! asks the user whether to trust the peer.
//!
//! The two line shapes are those of the patterns
//! `^\[(?P<ts>[^\]]+)\]\s+(?P<level>[A-Z0-9]+):\s(?P<msg>.*)$` and
//! `peer fingerprint \(SHA1\): ([A-F0-9:]+) \(SHA256\): ([A-F0-9:]+)`,
//! where `\s` is a Unicode white-space character and `.` any character but a
//! line feed. They are stated below as scans over the characters of a line.
use vstd::prelude::*;
use crate::text::chars_of;

verus! {

/// Lifecycle state inferred from a log line.
#[derive(Debug, Clone, Copy, PartialEq, Eq, Structural)]
pub enum DerivedState {
    Connected,
    Error,
}

/// Events emitted by parsing a log line.
#[derive(Debug, Clone)]
pub enum LogEvent {
    /// The core transitioned to a new lifecycle state.
    StateChange(DerivedState),
    /// A TLS peer fingerprint was seen: the user must decide whether to trust it.
    FingerprintPrompt { sha1: String, sha256: String },
}

/// A log event with its strings taken as character sequences.
pub enum LogEventView {
    StateChange(DerivedState),
    FingerprintPrompt { sha1: Seq<char>, sha256: Seq<char> },
}

impl View for LogEvent {
    type V = LogEventView;

    open spec fn view(&self) -> LogEventView {
        match self {
            LogEvent::StateChange(s) => LogEventView::StateChange(*s),
            LogEvent::FingerprintPrompt { sha1, sha256 } => LogEventView::FingerprintPrompt {
                sha1: sha1@,
                sha256: sha256@,
            },
        }
    }
}

/// Parsed representation of a single log line.
pub struct ParsedLine<'a> {
    pub level: Option<&'a str>,
    pub message: &'a str,
    /// Derived events (state changes / fingerprints) from this line.
    pub events_buf: Vec<LogEvent>,
}

/// The character classes that the line shapes use.
#[derive(Clone, Copy)]
pub enum CharClass {
    /// Unicode white space.
    Space,
    /// `[A-Z0-9]`.
    Level,
    /// `[A-F0-9:]`: upper-case hexadecimal digits and colons.
    Hex,
}

/// Unicode white space (the `White_Space` property).
pub open spec fn is_space(c: char) -> bool {
    ||| ('\t' <= c && c <= '\r')
    ||| c == ' '
    ||| c == '\u{85}'
    ||| c == '\u{a0}'
    ||| c == '\u{1680}'
    ||| ('\u{2000}' <= c && c <= '\u{200a}')
    ||| c == '\u{2028}'
    ||| c == '\u{2029}'
    ||| c == '\u{202f}'
    ||| c == '\u{205f}'
    ||| c == '\u{3000}'
}

pub open spec fn in_class(k: CharClass, c: char) -> bool {
    match k {
        CharClass::Space => is_space(c),
        CharClass::Level => ('A' <= c && c <= 'Z') || ('0' <= c && c <= '9'),
        CharClass::Hex => ('0' <= c && c <= '9') || ('A' <= c && c <= 'F') || c == ':',
    }
}

/// The end of the longest run of class `k` that starts at `i`.
pub open spec fn run_end(s: Seq<char>, i: int, k: CharClass) -> int
    decreases s.len() - i,
{
    if 0 <= i < s.len() && in_class(k, s[i]) {
        run_end(s, i + 1, k)
    } else {
        i
    }
}

/// The first index at or after `i` that holds `c`, or the length.
pub open spec fn find_char(s: Seq<char>, i: int, c: char) -> int
    decreases s.len() - i,
{
    if i < 0 || i >= s.len() {
        s.len() as int
    } else if s[i] == c {
        i
    } else {
        find_char(s, i + 1, c)
    }
}

/// `s` holds `pat` at position `i`.
pub open spec fn occurs_at(s: Seq<char>, pat: Seq<char>, i: int) -> bool {
    0 <= i && i + pat.len() <= s.len() && s.subrange(i, i + pat.len()) == pat
}

/// `pat` occurs somewhere in `s`.
pub open spec fn contains(s: Seq<char>, pat: Seq<char>) -> bool {
    exists|i: int| occurs_at(s, pat, i)
}

/// ASCII upper-case letters made lower case; everything else unchanged.
pub open spec fn lower_char(c: char) -> char {
    if 'A' <= c && c <= 'Z' {
        ((c as int) + 32) as char
    } else {
        c
    }
}

/// ASCII lower-case letters made upper case; everything else unchanged.
pub open spec fn upper_char(c: char) -> char {
    if 'a' <= c && c <= 'z' {
        ((c as int) - 32) as char
    } else {
        c
    }
}

pub open spec fn ascii_lower(s: Seq<char>) -> Seq<char> {
    s.map_values(|c: char| lower_char(c))
}

pub open spec fn ascii_upper(s: Seq<char>) -> Seq<char> {
    s.map_values(|c: char| upper_char(c))
}

/// The positions (level start, level end, message start) of a structured
/// line `[ts] LEVEL: message`, or `None` when the line has another shape.
pub open spec fn log_structure(s: Seq<char>) -> Option<(int, int, int)> {
    if s.len() == 0 || s[0] != '[' {
        None
    } else {
        let close = find_char(s, 1, ']');
        if close >= s.len() || close == 1 {
            None
        } else {
            let w = run_end(s, close + 1, CharClass::Space);
            let e = run_end(s, w, CharClass::Level);
            if w == close + 1 || e == w || e >= s.len() || e + 1 >= s.len() || s[e] != ':' || !is_space(s[e + 1])
                || find_char(s, e + 2, '\n') < s.len() {
                None
            } else {
                Some((w, e, e + 2))
            }
        }
    }
}

/// The level of a line, when it is structured.
pub open spec fn line_level(s: Seq<char>) -> Option<Seq<char>> {
    match log_structure(s) {
        Some((w, e, m)) => Some(s.subrange(w, e)),
        None => None,
    }
}

/// The message of a line: the text after `LEVEL: ` when it is structured,
/// the whole line otherwise.
pub open spec fn line_message(s: Seq<char>) -> Seq<char> {
    match log_structure(s) {
        Some((w, e, m)) => s.subrange(m, s.len() as int),
        None => s,
    }
}

/// The message announces that the server runs or is connected.
pub open spec fn announces_connected(msg: Seq<char>) -> bool {
    let l = ascii_lower(msg);
    contains(l, "started server"@) || contains(l, "connected to server"@) || contains(
        l,
        "server status: active"@,
    )
}

/// The message announces a failure.
pub open spec fn announces_error(msg: Seq<char>) -> bool {
    let l = ascii_lower(msg);
    contains(l, "cannot listen for clients"@) || contains(l, "failed to connect to server"@)
        || contains(l, "cannot read configuration"@)
}

/// The state change that a message announces; a connection announcement wins
/// over a failure announcement.
pub open spec fn announced_state(msg: Seq<char>) -> Option<DerivedState> {
    if announces_connected(msg) {
        Some(DerivedState::Connected)
    } else if announces_error(msg) {
        Some(DerivedState::Error)
    } else {
        None
    }
}

pub open spec fn sha1_marker() -> Seq<char> {
    "peer fingerprint (SHA1): "@
}

pub open spec fn sha256_marker() -> Seq<char> {
    " (SHA256): "@
}

/// The positions (sha1 start, sha1 end, sha256 start, sha256 end) of a
/// fingerprint announcement that starts at `i`, if one does.
pub open spec fn fingerprint_at(s: Seq<char>, i: int) -> Option<(int, int, int, int)> {
    if !occurs_at(s, sha1_marker(), i) {
        None
    } else {
        let a = i + sha1_marker().len();
        let b = run_end(s, a, CharClass::Hex);
        let d = b + sha256_marker().len();
        let e = run_end(s, d, CharClass::Hex);
        if b == a || !occurs_at(s, sha256_marker(), b) || e == d {
            None
        } else {
            Some((a, b, d, e))
        }
    }
}

/// The first fingerprint announcement that starts at or after `i`.
pub open spec fn fingerprint_from(s: Seq<char>, i: int) -> Option<(int, int, int, int)>
    decreases s.len() + 1 - i,
{
    if i < 0 || i > s.len() {
        None
    } else {
        match fingerprint_at(s, i) {
            Some(p) => Some(p),
            None => fingerprint_from(s, i + 1),
        }
    }
}

/// The events that a message yields: its state change, if any, then its
/// fingerprint prompt, if any.
pub open spec fn message_events(msg: Seq<char>) -> Seq<LogEventView> {
    let states = match announced_state(msg) {
        Some(st) => seq![LogEventView::StateChange(st)],
        None => Seq::empty(),
    };
    match fingerprint_from(msg, 0) {
        Some((a, b, d, e)) => states.push(
            LogEventView::FingerprintPrompt {
                sha1: msg.subrange(a, b),
                sha256: msg.subrange(d, e),
            },
        ),
        None => states,
    }
}

/// The frontend's level name for a line's level.
pub open spec fn level_category(level: Option<Seq<char>>) -> Seq<char> {
    match level {
        None => "INFO"@,
        Some(l) => {
            let u = ascii_upper(l);
            if u == "FATAL"@ || u == "ERROR"@ {
                "ERROR"@
            } else if u == "WARNING"@ {
                "WARNING"@
            } else if u == "NOTE"@ {
                "NOTE"@
            } else if u == "INFO"@ {
                "INFO"@
            } else if u == "DEBUG"@ || u == "DEBUG1"@ || u == "DEBUG2"@ {
                "DEBUG"@
            } else if u.len() >= 5 && u.subrange(0, 5) == "DEBUG"@ {
                "DEBUG"@
            } else {
                "INFO"@
            }
        },
    }
}

/// A run ends inside the sequence, at or after where it starts.
pub proof fn lemma_run_end_bounds(s: Seq<char>, i: int, k: CharClass)
    requires
        0 <= i <= s.len(),
    ensures
        i <= run_end(s, i, k) <= s.len(),
    decreases s.len() - i,
{
    if i < s.len() && in_class(k, s[i]) {
        lemma_run_end_bounds(s, i + 1, k);
    }
}

/// The positions of a structured line are in order and inside the line.
pub proof fn lemma_structure_bounds(s: Seq<char>)
    ensures
        log_structure(s) matches Some((w, e, m)) ==> 0 <= w <= e && e + 2 == m && m <= s.len(),
{
    if s.len() > 0 && s[0] == '[' {
        let close = find_char(s, 1, ']');
        if close < s.len() && close != 1 {
            lemma_find_char_bounds(s, 1, ']');
            lemma_run_end_bounds(s, close + 1, CharClass::Space);
            let w = run_end(s, close + 1, CharClass::Space);
            lemma_run_end_bounds(s, w, CharClass::Level);
        }
    }
}

/// The search for a character ends inside the sequence, at or after where
/// it starts.
pub proof fn lemma_find_char_bounds(s: Seq<char>, i: int, c: char)
    requires
        0 <= i <= s.len(),
    ensures
        i <= find_char(s, i, c) <= s.len(),
    decreases s.len() - i,
{
    if i < s.len() && s[i] != c {
        lemma_find_char_bounds(s, i + 1, c);
    }
}

/// A run of class `k` from `i` ends exactly at `j` when every character
/// in between is in the class and the one at `j` (if any) is not.
pub proof fn lemma_run_end_is(s: Seq<char>, i: int, j: int, k: CharClass)
    requires
        0 <= i <= j <= s.len(),
        forall|m: int| i <= m < j ==> in_class(k, #[trigger] s[m]),
        j == s.len() || !in_class(k, s[j]),
    ensures
        run_end(s, i, k) == j,
    decreases j - i,
{
    if i < j {
        lemma_run_end_is(s, i + 1, j, k);
    }
}

/// Everything inside a run is in its class, and what stops it is not.
pub proof fn lemma_run_end_facts(s: Seq<char>, i: int, k: CharClass)
    requires
        0 <= i <= s.len(),
    ensures
        i <= run_end(s, i, k) <= s.len(),
        forall|m: int| i <= m < run_end(s, i, k) ==> in_class(k, #[trigger] s[m]),
        run_end(s, i, k) == s.len() || !in_class(k, s[run_end(s, i, k)]),
    decreases s.len() - i,
{
    lemma_run_end_bounds(s, i, k);
    if i < s.len() && in_class(k, s[i]) {
        lemma_run_end_facts(s, i + 1, k);
    }
}

/// The search for `c` from `i` stops exactly at `j` when no character
/// before `j` is `c` and the one at `j` (if any) is.
pub proof fn lemma_find_char_is(s: Seq<char>, i: int, j: int, c: char)
    requires
        0 <= i <= j <= s.len(),
        forall|m: int| i <= m < j ==> #[trigger] s[m] != c,
        j == s.len() || s[j] == c,
    ensures
        find_char(s, i, c) == j,
    decreases j - i,
{
    if i < j {
        lemma_find_char_is(s, i + 1, j, c);
    }
}

/// No character before the result of a search is the one searched for.
pub proof fn lemma_find_char_facts(s: Seq<char>, i: int, c: char)
    requires
        0 <= i <= s.len(),
    ensures
        i <= find_char(s, i, c) <= s.len(),
        forall|m: int| i <= m < find_char(s, i, c) ==> #[trigger] s[m] != c,
        find_char(s, i, c) == s.len() || s[find_char(s, i, c)] == c,
    decreases s.len() - i,
{
    lemma_find_char_bounds(s, i, c);
    if i < s.len() && s[i] != c {
        lemma_find_char_facts(s, i + 1, c);
    }
}

/// `s` reads `[ts] ws LEVEL: msg` with the closing bracket at `close`, the
/// level from `w` to `e`: `ts` is non-empty and holds no `]`, `ws` is
/// non-empty white space, `LEVEL` is non-empty `[A-Z0-9]`, one white-space
/// character follows the colon, and `msg` holds no line feed.
pub open spec fn has_log_shape(s: Seq<char>, close: int, w: int, e: int) -> bool {
    &&& s.len() > 0 && s[0] == '['
    &&& 1 < close && close + 1 < w && w < e
    &&& e + 1 < s.len()
    &&& s[close] == ']'
    &&& forall|m: int| 1 <= m < close ==> #[trigger] s[m] != ']'
    &&& forall|m: int| close < m < w ==> is_space(#[trigger] s[m])
    &&& forall|m: int| w <= m < e ==> in_class(CharClass::Level, #[trigger] s[m])
    &&& s[e] == ':'
    &&& is_space(s[e + 1])
    &&& forall|m: int| e + 2 <= m < s.len() ==> #[trigger] s[m] != '\n'
}

/// A line is structured exactly when it has the shape `[ts] ws LEVEL: msg`,
/// and then its level and message are the parts of that shape; the shape
/// of a line is unique.
pub proof fn law_structured_lines_are_the_log_shape(s: Seq<char>, close: int, w: int, e: int)
    ensures
        has_log_shape(s, close, w, e) ==> log_structure(s) == Some((w, e, e + 2)),
        log_structure(s) is Some ==> (log_structure(s)->0).2 == (log_structure(s)->0).1 + 2,
        log_structure(s) is Some ==> exists|c: int|
            #[trigger] has_log_shape(s, c, (log_structure(s)->0).0, (log_structure(s)->0).1),
{
    if has_log_shape(s, close, w, e) {
        lemma_find_char_is(s, 1, close, ']');
        lemma_run_end_is(s, close + 1, w, CharClass::Space);
        lemma_run_end_is(s, w, e, CharClass::Level);
        lemma_find_char_is(s, e + 2, s.len() as int, '\n');
    }
    if log_structure(s) is Some {
        let c = find_char(s, 1, ']');
        lemma_find_char_facts(s, 1, ']');
        lemma_run_end_facts(s, c + 1, CharClass::Space);
        let w2 = run_end(s, c + 1, CharClass::Space);
        lemma_run_end_facts(s, w2, CharClass::Level);
        let e2 = run_end(s, w2, CharClass::Level);
        assert(log_structure(s) == Some((w2, e2, e2 + 2)));
        lemma_find_char_facts(s, e2 + 2, '\n');
        assert(has_log_shape(s, c, w2, e2));
        assert(log_structure(s)->0 == (w2, e2, e2 + 2));
        assert(has_log_shape(s, c, (log_structure(s)->0).0, (log_structure(s)->0).1));
    }
}

/// The fingerprint found from `i` is the leftmost announcement at or after
/// `i`; when none is found, no position from `i` on starts one.
pub proof fn law_fingerprint_is_leftmost(s: Seq<char>, i: int)
    requires
        0 <= i <= s.len(),
    ensures
        fingerprint_from(s, i) is Some ==> exists|j: int|
            i <= j <= s.len() && #[trigger] fingerprint_at(s, j) == fingerprint_from(s, i) && forall|
                k: int,
            |
                i <= k < j ==> (#[trigger] fingerprint_at(s, k)) is None,
        fingerprint_from(s, i) is None ==> forall|k: int|
            i <= k <= s.len() ==> (#[trigger] fingerprint_at(s, k)) is None,
    decreases s.len() + 1 - i,
{
    if fingerprint_at(s, i) is Some {
        assert(fingerprint_at(s, i) == fingerprint_from(s, i));
    } else if i < s.len() {
        law_fingerprint_is_leftmost(s, i + 1);
        if fingerprint_from(s, i) is Some {
            let j = choose|j: int|
                i + 1 <= j <= s.len() && #[trigger] fingerprint_at(s, j) == fingerprint_from(s, i + 1)
                    && forall|k: int| i + 1 <= k < j ==> (#[trigger] fingerprint_at(s, k)) is None;
            assert(fingerprint_at(s, j) == fingerprint_from(s, i));
        }
    } else {
        assert(fingerprint_from(s, i + 1) is None);
    }
}

/// The message of a line is always a suffix of the line; an unstructured
/// line is its own message and has no level.
pub proof fn law_message_is_suffix(raw: Seq<char>)
    ensures
        exists|k: int|
            0 <= k <= raw.len() && line_message(raw) == #[trigger] raw.subrange(k, raw.len() as int),
        line_level(raw) is None ==> line_message(raw) == raw,
{
    lemma_structure_bounds(raw);
    match log_structure(raw) {
        Some((w, e, m)) => {
            assert(line_message(raw) == raw.subrange(m, raw.len() as int));
        },
        None => {
            assert(raw.subrange(0, raw.len() as int) =~= raw);
        },
    }
}

/// A line yields at most one state change, listed first, and at most one
/// fingerprint prompt; a line that announces both a connection and a failure
/// counts as a connection.
pub proof fn law_events_of_a_line(msg: Seq<char>)
    ensures
        message_events(msg).len() <= 2,
        forall|k: int|
            1 <= k < message_events(msg).len() ==> #[trigger] message_events(msg)[k] is FingerprintPrompt,
        announces_connected(msg) ==> message_events(msg)[0] == LogEventView::StateChange(
            DerivedState::Connected,
        ),
        !announces_connected(msg) && announces_error(msg) ==> message_events(msg)[0]
            == LogEventView::StateChange(DerivedState::Error),
{
}

/// The keywords decide the state change, ASCII case-insensitively: a message
/// that mentions "started server", "connected to server" or "server status:
/// active" yields Connected first; one that mentions none of them but
/// "cannot listen for clients", "failed to connect to server" or "cannot read
/// configuration" yields Error first; one that mentions none of the six
/// yields no state change at all.
pub proof fn law_keywords_decide_state(msg: Seq<char>)
    ensures
        ({
            let l = ascii_lower(msg);
            let connected = contains(l, "started server"@) || contains(l, "connected to server"@)
                || contains(l, "server status: active"@);
            let failed = contains(l, "cannot listen for clients"@) || contains(
                l,
                "failed to connect to server"@,
            ) || contains(l, "cannot read configuration"@);
            &&& connected ==> message_events(msg).len() >= 1 && message_events(msg)[0]
                == LogEventView::StateChange(DerivedState::Connected)
            &&& !connected && failed ==> message_events(msg).len() >= 1 && message_events(msg)[0]
                == LogEventView::StateChange(DerivedState::Error)
            &&& !connected && !failed ==> forall|k: int|
                0 <= k < message_events(msg).len() ==> #[trigger] message_events(msg)[k] is FingerprintPrompt
        }),
{
}

/// The frontend level is always one of ERROR, WARNING, NOTE, INFO and DEBUG,
/// and INFO for a line without a level.
pub proof fn law_level_categories(level: Option<Seq<char>>)
    ensures
        level_category(level) == "ERROR"@ || level_category(level) == "WARNING"@
            || level_category(level) == "NOTE"@ || level_category(level) == "INFO"@
            || level_category(level) == "DEBUG"@,
        level is None ==> level_category(level) == "INFO"@,
{
}

pub(crate) fn class_has(k: CharClass, c: char) -> (r: bool)
    ensures
        r == in_class(k, c),
{
    match k {
        CharClass::Space => {
            ('\t' <= c && c <= '\r') || c == ' ' || c == '\u{85}' || c == '\u{a0}' || c
                == '\u{1680}' || ('\u{2000}' <= c && c <= '\u{200a}') || c == '\u{2028}' || c
                == '\u{2029}' || c == '\u{202f}' || c == '\u{205f}' || c == '\u{3000}'
        },
        CharClass::Level => ('A' <= c && c <= 'Z') || ('0' <= c && c <= '9'),
        CharClass::Hex => ('0' <= c && c <= '9') || ('A' <= c && c <= 'F') || c == ':',
    }
}

fn scan_run(s: &Vec<char>, i: usize, k: CharClass) -> (r: usize)
    requires
        i <= s@.len(),
    ensures
        r == run_end(s@, i as int, k),
        i <= r <= s@.len(),
    decreases s@.len() - i,
{
    if i < s.len() && class_has(k, s[i]) {
        scan_run(s, i + 1, k)
    } else {
        i
    }
}

fn scan_for(s: &Vec<char>, i: usize, c: char) -> (r: usize)
    requires
        i <= s@.len(),
    ensures
        r == find_char(s@, i as int, c),
        i <= r <= s@.len(),
    decreases s@.len() - i,
{
    if i >= s.len() {
        s.len()
    } else if s[i] == c {
        i
    } else {
        scan_for(s, i + 1, c)
    }
}

pub(crate) fn matches_at(s: &Vec<char>, pat: &Vec<char>, i: usize) -> (r: bool)
    ensures
        r == occurs_at(s@, pat@, i as int),
{
    if i > s.len() || pat.len() > s.len() - i {
        return false;
    }
    let mut k: usize = 0;
    while k < pat.len()
        invariant
            k <= pat@.len(),
            i + pat@.len() <= s.len(),
            forall|j: int| 0 <= j < k ==> s@[i + j] == pat@[j],
        decreases pat@.len() - k,
    {
        if s[i + k] != pat[k] {
            assert(s@.subrange(i as int, i + pat@.len())[k as int] != pat@[k as int]);
            return false;
        }
        k = k + 1;
    }
    assert(s@.subrange(i as int, i + pat@.len()) =~= pat@);
    true
}

pub(crate) fn contains_str(s: &Vec<char>, pat: &str) -> (r: bool)
    ensures
        r == contains(s@, pat@),
{
    let p = chars_of(pat);
    let mut i: usize = 0;
    while i < s.len()
        invariant
            i <= s@.len(),
            p@ == pat@,
            forall|j: int| 0 <= j < i ==> !occurs_at(s@, p@, j),
        decreases s@.len() - i,
    {
        if matches_at(s, &p, i) {
            return true;
        }
        i = i + 1;
    }
    if matches_at(s, &p, i) {
        return true;
    }
    assert forall|j: int| !occurs_at(s@, p@, j) by {
        if 0 <= j <= i {
        }
    }
    false
}

pub(crate) fn equals_str(v: &Vec<char>, s: &str) -> (r: bool)
    ensures
        r == (v@ == s@),
{
    let p = chars_of(s);
    if p.len() != v.len() {
        return false;
    }
    let r = matches_at(v, &p, 0);
    proof {
        assert(v@.subrange(0, v@.len() as int) =~= v@);
    }
    r
}

fn to_lower(s: &Vec<char>) -> (r: Vec<char>)
    ensures
        r@ == ascii_lower(s@),
{
    let mut r: Vec<char> = Vec::new();
    let mut i: usize = 0;
    while i < s.len()
        invariant
            i <= s@.len(),
            r@ == s@.take(i as int).map_values(|c: char| lower_char(c)),
        decreases s@.len() - i,
    {
        let c = s[i];
        if 'A' <= c && c <= 'Z' {
            let b: u8 = c as u8;
            assert(b == c as int);
            r.push((b + 32) as char);
        } else {
            r.push(c);
        }
        assert(s@.take(i + 1) =~= s@.take(i as int).push(c));
        i = i + 1;
    }
    assert(s@.take(s@.len() as int) =~= s@);
    r
}

fn to_upper(s: &Vec<char>) -> (r: Vec<char>)
    ensures
        r@ == ascii_upper(s@),
{
    let mut r: Vec<char> = Vec::new();
    let mut i: usize = 0;
    while i < s.len()
        invariant
            i <= s@.len(),
            r@ == s@.take(i as int).map_values(|c: char| upper_char(c)),
        decreases s@.len() - i,
    {
        let c = s[i];
        if 'a' <= c && c <= 'z' {
            let b: u8 = c as u8;
            assert(b == c as int);
            r.push((b - 32) as char);
        } else {
            r.push(c);
        }
        assert(s@.take(i + 1) =~= s@.take(i as int).push(c));
        i = i + 1;
    }
    assert(s@.take(s@.len() as int) =~= s@);
    r
}

/// The positions of a structured line, if the line is one.
fn structure_of(s: &Vec<char>) -> (r: Option<(usize, usize, usize)>)
    ensures
        match r {
            Some((w, e, m)) => log_structure(s@) == Some((w as int, e as int, m as int)),
            None => log_structure(s@) is None,
        },
        r matches Some((w, e, m)) ==> w <= e <= m <= s@.len(),
{
    if s.len() == 0 || s[0] != '[' {
        return None;
    }
    let close = scan_for(s, 1, ']');
    if close >= s.len() || close == 1 {
        return None;
    }
    let w = scan_run(s, close + 1, CharClass::Space);
    let e = scan_run(s, w, CharClass::Level);
    if w == close + 1 || e == w || e >= s.len() || e + 1 >= s.len() || s[e] != ':' || !class_has(
        CharClass::Space,
        s[e + 1],
    ) {
        return None;
    }
    if scan_for(s, e + 2, '\n') < s.len() {
        return None;
    }
    Some((w, e, e + 2))
}

/// The positions of a fingerprint announcement starting at `i`, if one does.
fn fingerprint_here(s: &Vec<char>, i: usize) -> (r: Option<(usize, usize, usize, usize)>)
    requires
        i <= s@.len(),
    ensures
        match r {
            Some((a, b, d, e)) => fingerprint_at(s@, i as int) == Some(
                (a as int, b as int, d as int, e as int),
            ),
            None => fingerprint_at(s@, i as int) is None,
        },
        r matches Some((a, b, d, e)) ==> a <= b <= d <= e <= s@.len(),
{
    let m1 = chars_of("peer fingerprint (SHA1): ");
    let m2 = chars_of(" (SHA256): ");
    let n = s.len();
    if !matches_at(s, &m1, i) {
        return None;
    }
    let a = i + m1.len();
    let b = scan_run(s, a, CharClass::Hex);
    if b == a || !matches_at(s, &m2, b) {
        return None;
    }
    let d = b + m2.len();
    let e = scan_run(s, d, CharClass::Hex);
    if e == d {
        return None;
    }
    Some((a, b, d, e))
}

/// The first fingerprint announcement in `s`.
fn find_fingerprint(s: &Vec<char>) -> (r: Option<(usize, usize, usize, usize)>)
    ensures
        match r {
            Some((a, b, d, e)) => fingerprint_from(s@, 0) == Some(
                (a as int, b as int, d as int, e as int),
            ),
            None => fingerprint_from(s@, 0) is None,
        },
        r matches Some((a, b, d, e)) ==> a <= b <= d <= e <= s@.len(),
{
    let mut i: usize = 0;
    while i < s.len()
        invariant
            i <= s@.len(),
            forall|j: int| 0 <= j < i ==> fingerprint_from(s@, j) == fingerprint_from(s@, i as int),
        decreases s@.len() - i,
    {
        match fingerprint_here(s, i) {
            Some(p) => {
                return Some(p);
            },
            None => {},
        }
        proof {
            assert(fingerprint_from(s@, i as int) == fingerprint_from(s@, i + 1));
        }
        i = i + 1;
    }
    match fingerprint_here(s, i) {
        Some(p) => {
            return Some(p);
        },
        None => {},
    }
    proof {
        assert(fingerprint_from(s@, i as int) == fingerprint_from(s@, i + 1));
        assert(fingerprint_from(s@, 0) == fingerprint_from(s@, i as int));
    }
    None
}

/// The events of a message, computed from its characters.
fn events_of(message: &str) -> (r: Vec<LogEvent>)
    ensures
        r@.map_values(|e: LogEvent| e@) == message_events(message@),
{
    let chars = chars_of(message);
    let lower = to_lower(&chars);
    let mut events: Vec<LogEvent> = Vec::new();
    if contains_str(&lower, "started server") || contains_str(&lower, "connected to server")
        || contains_str(&lower, "server status: active") {
        events.push(LogEvent::StateChange(DerivedState::Connected));
    } else if contains_str(&lower, "cannot listen for clients") || contains_str(
        &lower,
        "failed to connect to server",
    ) || contains_str(&lower, "cannot read configuration") {
        events.push(LogEvent::StateChange(DerivedState::Error));
    }
    let ghost before = events@;
    match find_fingerprint(&chars) {
        Some((a, b, d, e)) => {
            let sha1 = String::from_str(message.substring_char(a, b));
            let sha256 = String::from_str(message.substring_char(d, e));
            events.push(LogEvent::FingerprintPrompt { sha1, sha256 });
            proof {
                assert(events@ =~= before.push(events@[before.len() as int]));
            }
        },
        None => {},
    }
    proof {
        assert(events@.map_values(|e: LogEvent| e@) =~= message_events(message@));
    }
    events
}

/// Parse one raw stdout line into level + message + derived events.
pub fn parse_log_line(raw: &str) -> (r: ParsedLine<'_>)
    ensures
        (match r.level {
            Some(l) => Some(l@),
            None => None,
        }) == line_level(raw@),
        r.message@ == line_message(raw@),
        r.events_buf@.map_values(|e: LogEvent| e@) == message_events(line_message(raw@)),
{
    let chars = chars_of(raw);
    let (level, message) = match structure_of(&chars) {
        Some((w, e, m)) => (Some(raw.substring_char(w, e)), raw.substring_char(m, chars.len())),
        None => (None, raw),
    };
    let events_buf = events_of(message);
    ParsedLine { level, message, events_buf }
}

fn starts_with_debug(u: &Vec<char>) -> (r: bool)
    ensures
        r == (u@.len() >= 5 && u@.subrange(0, 5) == "DEBUG"@),
{
    let p = chars_of("DEBUG");
    let r = matches_at(u, &p, 0);
    proof {
        reveal_strlit("DEBUG");
    }
    r
}

impl<'a> ParsedLine<'a> {
    /// The level normalised to the small set the frontend shows: ERROR,
    /// WARNING, NOTE, INFO or DEBUG.
    pub fn level_str(&self) -> (r: &'static str)
        ensures
            r@ == level_category(
                match self.level {
                    Some(l) => Some(l@),
                    None => None,
                },
            ),
    {
        match self.level {
            None => "INFO",
            Some(l) => {
                let u = to_upper(&chars_of(l));
                if equals_str(&u, "FATAL") || equals_str(&u, "ERROR") {
                    "ERROR"
                } else if equals_str(&u, "WARNING") {
                    "WARNING"
                } else if equals_str(&u, "NOTE") {
                    "NOTE"
                } else if equals_str(&u, "INFO") {
                    "INFO"
                } else if equals_str(&u, "DEBUG") || equals_str(&u, "DEBUG1") || equals_str(
                    &u,
                    "DEBUG2",
                ) {
                    "DEBUG"
                } else if starts_with_debug(&u) {
                    "DEBUG"
                } else {
                    "INFO"
                }
            },
        }
    }

    pub fn message(&self) -> (r: &str)
        ensures
            r@ == self.message@,
    {
        self.message
    }

    pub fn events(&self) -> (r: &[LogEvent])
        ensures
            r@ == self.events_buf@,
    {
        self.events_buf.as_slice()
    }
}

} // verus!

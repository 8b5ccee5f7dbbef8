//! The barrier text configuration format (consumed by `barriers -c`).
//!
//! The contents of a configuration are written section by section: screens,
//! aliases (only when some screen has aliases), links derived from grid
//! adjacency, and global options. The specification below describes the text
//! as a chain of appends to what was written so far.
use vstd::prelude::*;
use vstd::arithmetic::div_mod::lemma_fundamental_div_mod_converse;
use crate::text::{decimal, push_decimal};
use crate::logparse::occurs_at;
use crate::config::{
    Direction, Modifier, Screen, ServerConfig, direction_name, direction_offset, modifier_name,
    modifier_order, opposite,
};

verus! {

/// `acc` followed by `line` when `c` holds, otherwise `acc`.
pub open spec fn line_if(acc: Seq<char>, c: bool, line: Seq<char>) -> Seq<char> {
    if c {
        acc + line
    } else {
        acc
    }
}

/// Some flag is set.
pub open spec fn any_flag(flags: Seq<bool>) -> bool {
    exists|i: int| 0 <= i < flags.len() && flags[i]
}

/// The name of a switch corner, by index.
pub open spec fn corner_label(i: int) -> Seq<char> {
    if i == 0 {
        "TopLeft"@
    } else if i == 1 {
        "TopRight"@
    } else if i == 2 {
        "BottomLeft"@
    } else {
        "BottomRight"@
    }
}

/// `none` followed by ` + Name` for each of the first `n` corners that is set.
pub open spec fn corner_list(flags: Seq<bool>, n: nat) -> Seq<char>
    decreases n,
{
    if n == 0 {
        "none"@
    } else {
        line_if(corner_list(flags, (n - 1) as nat), flags[n - 1], " + "@ + corner_label(n - 1))
    }
}

/// The value of a `switchCorners` option.
pub open spec fn corner_names_text(flags: Seq<bool>) -> Seq<char> {
    corner_list(flags, 4)
}

/// `true` or `false`.
pub open spec fn bool_text(b: bool) -> Seq<char> {
    if b {
        "true"@
    } else {
        "false"@
    }
}

/// The remap lines of the first `n` modifiers of a screen.
pub open spec fn modifiers_emit(acc: Seq<char>, s: Screen, n: nat) -> Seq<char>
    decreases n,
{
    if n == 0 {
        acc
    } else {
        let prev = modifiers_emit(acc, s, (n - 1) as nat);
        match s.modifiers@[n - 1] {
            Some(t) => prev + "        "@ + modifier_name(modifier_order()[n - 1]) + " = "@ + t@
                + "\n"@,
            None => prev,
        }
    }
}

/// The entry of one screen in the `screens` section; empty cells have none.
pub open spec fn screen_emit(acc: Seq<char>, s: Screen) -> Seq<char> {
    if s.name@.len() == 0 {
        acc
    } else {
        let a = modifiers_emit(acc + "    "@ + s.name@ + ":\n"@, s, 5);
        let a = line_if(a, s.fixes.half_duplex_caps_lock, "        halfDuplexCapsLock = true\n"@);
        let a = line_if(a, s.fixes.half_duplex_num_lock, "        halfDuplexNumLock = true\n"@);
        let a = line_if(
            a,
            s.fixes.half_duplex_scroll_lock,
            "        halfDuplexScrollLock = true\n"@,
        );
        let a = line_if(
            a,
            s.fixes.xtest_is_xinerama_unaware,
            "        xtestIsXineramaUnaware = true\n"@,
        );
        let a = line_if(a, s.fixes.preserve_focus, "        preserveFocus = true\n"@);
        let a = if any_flag(s.switch_corners@) {
            a + "        switchCorners = "@ + corner_names_text(s.switch_corners@) + "\n"@
        } else {
            a
        };
        if s.switch_corner_size > 0 {
            a + "        switchCornerSize = "@ + decimal(s.switch_corner_size as nat) + "\n"@
        } else {
            a
        }
    }
}

/// The alias lines of the first `n` aliases.
pub open spec fn alias_lines(acc: Seq<char>, aliases: Seq<String>, n: nat) -> Seq<char>
    decreases n,
{
    if n == 0 {
        acc
    } else {
        alias_lines(acc, aliases, (n - 1) as nat) + "        "@ + aliases[n - 1]@ + "\n"@
    }
}

/// A screen that appears in the `aliases` section.
pub open spec fn lists_aliases(s: Screen) -> bool {
    s.name@.len() > 0 && s.aliases@.len() > 0
}

/// The entry of one screen in the `aliases` section.
pub open spec fn alias_emit(acc: Seq<char>, s: Screen) -> Seq<char> {
    if lists_aliases(s) {
        alias_lines(acc + "    "@ + s.name@ + ":\n"@, s.aliases@, s.aliases@.len())
    } else {
        acc
    }
}

/// The order in which the links of a screen are written: by direction name.
pub open spec fn link_order() -> Seq<Direction> {
    seq![Direction::Down, Direction::Left, Direction::Right, Direction::Up]
}

impl ServerConfig {
    /// The cell reached from cell `i` by one step in direction `d`, if it is
    /// inside the grid.
    pub open spec fn neighbor_index(&self, i: int, d: Direction) -> Option<int> {
        let cols = self.num_columns as int;
        let rows = self.num_rows as int;
        let col = i % cols + direction_offset(d).0;
        let row = i / cols + direction_offset(d).1;
        if 0 <= col < cols && 0 <= row < rows {
            Some(row * cols + col)
        } else {
            None
        }
    }

    /// The name of the screen adjacent to cell `i` in direction `d`, if that
    /// cell exists and is not empty.
    pub open spec fn neighbor(&self, i: int, d: Direction) -> Option<Seq<char>> {
        match self.neighbor_index(i, d) {
            Some(j) => if self.screens@[j].name@.len() > 0 {
                Some(self.screens@[j].name@)
            } else {
                None
            },
            None => None,
        }
    }

    /// The link lines of cell `i` for the first `n` directions of `link_order()`.
    pub open spec fn link_lines(&self, i: int, n: nat) -> Seq<char>
        decreases n,
    {
        if n == 0 {
            Seq::empty()
        } else {
            let prev = self.link_lines(i, (n - 1) as nat);
            let d = link_order()[n - 1];
            match self.neighbor(i, d) {
                Some(name) => prev + "        "@ + direction_name(d) + " = "@ + name + "\n"@,
                None => prev,
            }
        }
    }

    /// Cell `i` has at least one non-empty neighbour.
    pub open spec fn has_link(&self, i: int) -> bool {
        exists|k: int| 0 <= k < 4 && (#[trigger] self.neighbor(i, link_order()[k])) is Some
    }

    /// The entry of cell `i` in the `links` section.
    pub open spec fn link_emit(&self, acc: Seq<char>, i: int) -> Seq<char> {
        if self.screens@[i].name@.len() > 0 && self.has_link(i) {
            acc + "    "@ + self.screens@[i].name@ + ":\n"@ + self.link_lines(i, 4)
        } else {
            acc
        }
    }

    /// The `screens` entries of the first `n` cells.
    pub open spec fn screens_emit(&self, acc: Seq<char>, n: nat) -> Seq<char>
        decreases n,
    {
        if n == 0 {
            acc
        } else {
            screen_emit(self.screens_emit(acc, (n - 1) as nat), self.screens@[n - 1])
        }
    }

    /// The `aliases` entries of the first `n` cells.
    pub open spec fn aliases_emit(&self, acc: Seq<char>, n: nat) -> Seq<char>
        decreases n,
    {
        if n == 0 {
            acc
        } else {
            alias_emit(self.aliases_emit(acc, (n - 1) as nat), self.screens@[n - 1])
        }
    }

    /// The `links` entries of the first `n` cells.
    pub open spec fn links_emit(&self, acc: Seq<char>, n: nat) -> Seq<char>
        decreases n,
    {
        if n == 0 {
            acc
        } else {
            self.link_emit(self.links_emit(acc, (n - 1) as nat), n - 1)
        }
    }

    /// Some non-empty screen has aliases.
    pub open spec fn any_alias(&self) -> bool {
        exists|i: int| 0 <= i < self.screens@.len() && lists_aliases(#[trigger] self.screens@[i])
    }

    /// The `options` section.
    pub open spec fn options_emit(&self, acc: Seq<char>) -> Seq<char> {
        let a = acc + "section: options\n"@;
        let a = if self.has_heartbeat {
            a + "    heartbeat = "@ + decimal(self.heartbeat as nat) + "\n"@
        } else {
            a
        };
        let a = line_if(a, self.relative_mouse_moves, "    relativeMouseMoves = true\n"@);
        let a = line_if(a, self.screen_saver_sync, "    screenSaverSync = true\n"@);
        let a = line_if(a, self.win32_keep_foreground, "    win32KeepForeground = true\n"@);
        let a = a + "    clipboardSharing = "@ + bool_text(self.clipboard_sharing) + "\n"@;
        let a = if self.has_switch_delay {
            a + "    switchDelay = "@ + decimal(self.switch_delay as nat) + "\n"@
        } else {
            a
        };
        let a = if self.has_switch_double_tap {
            a + "    switchDoubleTap = "@ + decimal(self.switch_double_tap as nat) + "\n"@
        } else {
            a
        };
        let a = if any_flag(self.switch_corners@) {
            a + "    switchCorners = "@ + corner_names_text(self.switch_corners@) + "\n"@
        } else {
            a
        };
        let a = if self.switch_corner_size > 0 {
            a + "    switchCornerSize = "@ + decimal(self.switch_corner_size as nat) + "\n"@
        } else {
            a
        };
        a + "end\n"@
    }

    /// The whole barrier text configuration.
    pub open spec fn barrier_text(&self) -> Seq<char> {
        let n = self.screens@.len();
        let a = "# FlowDesk server configuration\n"@ + "section: screens\n"@;
        let a = self.screens_emit(a, n) + "end\n\n"@;
        let a = if self.any_alias() {
            self.aliases_emit(a + "section: aliases\n"@, n) + "end\n\n"@
        } else {
            a
        };
        let a = self.links_emit(a + "section: links\n"@, n) + "end\n\n"@;
        self.options_emit(a)
    }
}

/// Facts about a cell index of a grid with `cols` columns and `rows` rows.
proof fn lemma_cell_position(cols: int, rows: int, i: int)
    requires
        0 <= i < cols * rows,
        cols > 0,
        rows >= 0,
    ensures
        0 <= i % cols < cols,
        0 <= i / cols < rows,
        i == (i / cols) * cols + i % cols,
{
    assert(0 <= i % cols < cols && i == (i / cols) * cols + i % cols) by (nonlinear_arith)
        requires
            cols > 0,
    ;
    assert(0 <= i / cols < rows) by (nonlinear_arith)
        requires
            0 <= i < cols * rows,
            cols > 0,
            i == (i / cols) * cols + i % cols,
            0 <= i % cols < cols,
    ;
}

/// The cell at (`col`, `row`) lies inside the grid and has that position.
proof fn lemma_cell_index(cols: int, rows: int, col: int, row: int)
    requires
        0 <= col < cols,
        0 <= row < rows,
    ensures
        0 <= row * cols,
        0 <= row * cols + col < cols * rows,
        (row * cols + col) % cols == col,
        (row * cols + col) / cols == row,
{
    assert(0 <= row * cols && 0 <= row * cols + col < cols * rows) by (nonlinear_arith)
        requires
            0 <= col < cols,
            0 <= row < rows,
    ;
    lemma_fundamental_div_mod_converse(row * cols + col, cols, row, col);
}

/// `a` comes before `b` in lexicographic order.
pub open spec fn lex_less(a: Seq<char>, b: Seq<char>) -> bool {
    exists|k: int|
        0 <= k <= a.len() && k <= b.len() && a.take(k) == b.take(k) && ((k == a.len() && k
            < b.len()) || (k < a.len() && k < b.len() && (a[k] as u32) < (b[k] as u32)))
}

/// Adjacency is mutual: when the screen in cell `i` has a non-empty
/// neighbour in direction `d`, that neighbour's cell has the screen of `i`
/// as its neighbour in the opposite direction.
pub proof fn law_adjacency_is_mutual(cfg: ServerConfig, i: int, d: Direction)
    requires
        cfg.wf(),
        0 <= i < cfg.screens@.len(),
        cfg.screens@[i].name@.len() > 0,
        cfg.neighbor(i, d) is Some,
    ensures
        ({
            let j = cfg.neighbor_index(i, d)->0;
            &&& 0 <= j < cfg.screens@.len()
            &&& cfg.neighbor(i, d) == Some(cfg.screens@[j].name@)
            &&& cfg.neighbor_index(j, opposite(d)) == Some(i)
            &&& cfg.neighbor(j, opposite(d)) == Some(cfg.screens@[i].name@)
        }),
{
    let cols = cfg.num_columns as int;
    let rows = cfg.num_rows as int;
    assert(cols > 0 && rows > 0) by (nonlinear_arith)
        requires
            0 <= i < cols * rows,
            cols >= 0,
            rows >= 0,
    ;
    lemma_cell_position(cols, rows, i);
    let col = i % cols + direction_offset(d).0;
    let row = i / cols + direction_offset(d).1;
    lemma_cell_index(cols, rows, col, row);
    let j = row * cols + col;
    assert(cfg.neighbor_index(i, d) == Some(j));
    lemma_cell_index(cols, rows, i % cols, i / cols);
}

/// The links of a screen are written in ascending order of direction name,
/// and every direction has its place in that order once.
pub proof fn law_links_sorted_by_name()
    ensures
        link_order().len() == 4,
        forall|k: int|
            0 <= k < 3 ==> lex_less(
                direction_name(#[trigger] link_order()[k]),
                direction_name(link_order()[k + 1]),
            ),
        forall|d: Direction| #[trigger] link_order().contains(d),
{
    reveal_strlit("down");
    reveal_strlit("left");
    reveal_strlit("right");
    reveal_strlit("up");
    assert forall|k: int|
        0 <= k < 3 implies lex_less(
        direction_name(#[trigger] link_order()[k]),
        direction_name(link_order()[k + 1]),
    ) by {
        let a = direction_name(link_order()[k]);
        let b = direction_name(link_order()[k + 1]);
        assert(a.take(0) =~= b.take(0));
    }
    assert forall|d: Direction| #[trigger] link_order().contains(d) by {
        match d {
            Direction::Down => assert(link_order()[0] == d),
            Direction::Left => assert(link_order()[1] == d),
            Direction::Right => assert(link_order()[2] == d),
            Direction::Up => assert(link_order()[3] == d),
        }
    }
}

/// Empty cells are not written: a blank cell adds nothing to any section.
pub proof fn law_empty_cells_are_silent(cfg: ServerConfig, acc: Seq<char>, i: int)
    requires
        0 <= i < cfg.screens@.len(),
        cfg.screens@[i].name@.len() == 0,
    ensures
        screen_emit(acc, cfg.screens@[i]) == acc,
        alias_emit(acc, cfg.screens@[i]) == acc,
        cfg.link_emit(acc, i) == acc,
{
}

/// The names of the five remap slots of a screen, in slot order.
pub open spec fn remap_slot_names() -> Seq<Seq<char>> {
    seq!["shift"@, "ctrl"@, "alt"@, "meta"@, "super"@]
}

/// The line that remaps slot `k` to `target`.
pub open spec fn remap_line(k: int, target: Seq<char>) -> Seq<char> {
    "        "@ + remap_slot_names()[k] + " = "@ + target + "\n"@
}

proof fn lemma_prefix_append(a: Seq<char>, x: Seq<char>)
    ensures
        a.is_prefix_of(a + x),
{
    assert(a =~= (a + x).subrange(0, a.len() as int));
}

proof fn lemma_prefix_trans(a: Seq<char>, b: Seq<char>, c: Seq<char>)
    requires
        a.is_prefix_of(b),
        b.is_prefix_of(c),
    ensures
        a.is_prefix_of(c),
{
    assert(a =~= c.subrange(0, a.len() as int));
}

proof fn lemma_line_stays(a: Seq<char>, b: Seq<char>, line: Seq<char>, p: int)
    requires
        a.is_prefix_of(b),
        occurs_at(a, line, p),
    ensures
        occurs_at(b, line, p),
{
    assert(b.subrange(p, p + line.len()) =~= a.subrange(p, p + line.len()));
}

proof fn lemma_line_if_extends(a: Seq<char>, c: bool, line: Seq<char>)
    ensures
        a.is_prefix_of(line_if(a, c, line)),
{
    if c {
        lemma_prefix_append(a, line);
    }
}

proof fn lemma_mods_extend(acc: Seq<char>, s: Screen, m: nat, n: nat)
    requires
        m <= n <= 5,
    ensures
        modifiers_emit(acc, s, m).is_prefix_of(modifiers_emit(acc, s, n)),
    decreases n,
{
    if m < n {
        lemma_mods_extend(acc, s, m, (n - 1) as nat);
        let prev = modifiers_emit(acc, s, (n - 1) as nat);
        match s.modifiers@[n - 1] {
            Some(t) => {
                lemma_prefix_append(
                    prev,
                    "        "@ + modifier_name(modifier_order()[n - 1]) + " = "@ + t@ + "\n"@,
                );
                assert(modifiers_emit(acc, s, n) =~= prev + ("        "@ + modifier_name(
                    modifier_order()[n - 1],
                ) + " = "@ + t@ + "\n"@));
                lemma_prefix_trans(modifiers_emit(acc, s, m), prev, modifiers_emit(acc, s, n));
            },
            None => {},
        }
    } else {
        assert(modifiers_emit(acc, s, m) =~= modifiers_emit(acc, s, n).subrange(
            0,
            modifiers_emit(acc, s, m).len() as int,
        ));
    }
}

proof fn lemma_screen_entry_extends(acc: Seq<char>, s: Screen)
    ensures
        acc.is_prefix_of(screen_emit(acc, s)),
        s.name@.len() > 0 ==> modifiers_emit(acc + "    "@ + s.name@ + ":\n"@, s, 5).is_prefix_of(
            screen_emit(acc, s),
        ),
{
    if s.name@.len() == 0 {
        assert(acc =~= screen_emit(acc, s).subrange(0, acc.len() as int));
    } else {
        let h = acc + "    "@ + s.name@ + ":\n"@;
        assert(acc =~= h.subrange(0, acc.len() as int));
        lemma_mods_extend(h, s, 0, 5);
        let a0 = modifiers_emit(h, s, 5);
        let a1 = line_if(a0, s.fixes.half_duplex_caps_lock, "        halfDuplexCapsLock = true\n"@);
        let a2 = line_if(a1, s.fixes.half_duplex_num_lock, "        halfDuplexNumLock = true\n"@);
        let a3 = line_if(a2, s.fixes.half_duplex_scroll_lock, "        halfDuplexScrollLock = true\n"@);
        let a4 = line_if(
            a3,
            s.fixes.xtest_is_xinerama_unaware,
            "        xtestIsXineramaUnaware = true\n"@,
        );
        let a5 = line_if(a4, s.fixes.preserve_focus, "        preserveFocus = true\n"@);
        lemma_line_if_extends(a0, s.fixes.half_duplex_caps_lock, "        halfDuplexCapsLock = true\n"@);
        lemma_line_if_extends(a1, s.fixes.half_duplex_num_lock, "        halfDuplexNumLock = true\n"@);
        lemma_line_if_extends(a2, s.fixes.half_duplex_scroll_lock, "        halfDuplexScrollLock = true\n"@);
        lemma_line_if_extends(
            a3,
            s.fixes.xtest_is_xinerama_unaware,
            "        xtestIsXineramaUnaware = true\n"@,
        );
        lemma_line_if_extends(a4, s.fixes.preserve_focus, "        preserveFocus = true\n"@);
        lemma_prefix_trans(a0, a1, a2);
        lemma_prefix_trans(a0, a2, a3);
        lemma_prefix_trans(a0, a3, a4);
        lemma_prefix_trans(a0, a4, a5);
        let a6 = if any_flag(s.switch_corners@) {
            a5 + "        switchCorners = "@ + corner_names_text(s.switch_corners@) + "\n"@
        } else {
            a5
        };
        if any_flag(s.switch_corners@) {
            lemma_prefix_append(a5, "        switchCorners = "@ + corner_names_text(s.switch_corners@) + "\n"@);
            assert(a6 =~= a5 + ("        switchCorners = "@ + corner_names_text(s.switch_corners@) + "\n"@));
        }
        lemma_prefix_trans(a0, a5, a6);
        if s.switch_corner_size > 0 {
            let x = "        switchCornerSize = "@ + decimal(s.switch_corner_size as nat) + "\n"@;
            lemma_prefix_append(a6, x);
            assert(screen_emit(acc, s) =~= a6 + x);
            lemma_prefix_trans(a0, a6, screen_emit(acc, s));
        } else {
            assert(screen_emit(acc, s) == a6);
        }
        lemma_prefix_trans(h, a0, screen_emit(acc, s));
        lemma_prefix_append(acc, "    "@ + s.name@ + ":\n"@);
        assert(h =~= acc + ("    "@ + s.name@ + ":\n"@));
        lemma_prefix_trans(acc, h, screen_emit(acc, s));
    }
}

/// Every remap of a screen is written under the name of its own slot: when
/// slot `k` (shift, ctrl, alt, meta, super in that order) of a named screen
/// is remapped to `t`, the screen's entry, after whatever was written before
/// it, holds the line `        <slot name> = t`.
pub proof fn law_remap_written_under_its_slot(acc: Seq<char>, s: Screen, k: int)
    requires
        s.name@.len() > 0,
        0 <= k < 5,
        s.modifiers@[k] is Some,
    ensures
        exists|p: int|
            acc.len() <= p && occurs_at(
                screen_emit(acc, s),
                remap_line(k, s.modifiers@[k]->0@),
                p,
            ),
{
    let h = acc + "    "@ + s.name@ + ":\n"@;
    let t = s.modifiers@[k]->0;
    let before = modifiers_emit(h, s, k as nat);
    let upto = modifiers_emit(h, s, (k + 1) as nat);
    reveal_strlit("shift");
    reveal_strlit("ctrl");
    reveal_strlit("alt");
    reveal_strlit("meta");
    reveal_strlit("super");
    assert(modifier_name(modifier_order()[k]) == remap_slot_names()[k]);
    assert(upto =~= before + remap_line(k, t@));
    let p = before.len() as int;
    assert(upto.subrange(p, p + remap_line(k, t@).len()) =~= remap_line(k, t@));
    lemma_mods_extend(h, s, 0, k as nat);
    assert(modifiers_emit(h, s, 0) == h);
    lemma_mods_extend(h, s, (k + 1) as nat, 5);
    lemma_line_stays(upto, modifiers_emit(h, s, 5), remap_line(k, t@), p);
    lemma_screen_entry_extends(acc, s);
    lemma_line_stays(modifiers_emit(h, s, 5), screen_emit(acc, s), remap_line(k, t@), p);
}

proof fn lemma_screens_extend(cfg: ServerConfig, acc: Seq<char>, i: int, n: nat)
    requires
        0 <= i < n <= cfg.screens@.len(),
    ensures
        cfg.screens_emit(acc, (i + 1) as nat).is_prefix_of(cfg.screens_emit(acc, n)),
    decreases n,
{
    if n == i + 1 {
        lemma_prefix_append(cfg.screens_emit(acc, n), Seq::empty());
        assert(cfg.screens_emit(acc, n) + Seq::<char>::empty() =~= cfg.screens_emit(acc, n));
    } else {
        lemma_screens_extend(cfg, acc, i, (n - 1) as nat);
        lemma_screen_entry_extends(cfg.screens_emit(acc, (n - 1) as nat), cfg.screens@[n - 1]);
        lemma_prefix_trans(
            cfg.screens_emit(acc, (i + 1) as nat),
            cfg.screens_emit(acc, (n - 1) as nat),
            cfg.screens_emit(acc, n),
        );
    }
}

proof fn lemma_alias_lines_extend(acc: Seq<char>, aliases: Seq<String>, n: nat)
    ensures
        acc.is_prefix_of(alias_lines(acc, aliases, n)),
    decreases n,
{
    if n == 0 {
        lemma_prefix_append(acc, Seq::empty());
        assert(acc + Seq::<char>::empty() =~= acc);
    } else {
        let prev = alias_lines(acc, aliases, (n - 1) as nat);
        lemma_alias_lines_extend(acc, aliases, (n - 1) as nat);
        lemma_prefix_append(prev, "        "@ + aliases[n - 1]@ + "\n"@);
        assert(alias_lines(acc, aliases, n) =~= prev + ("        "@ + aliases[n - 1]@ + "\n"@));
        lemma_prefix_trans(acc, prev, alias_lines(acc, aliases, n));
    }
}

proof fn lemma_aliases_extend(cfg: ServerConfig, acc: Seq<char>, n: nat)
    requires
        n <= cfg.screens@.len(),
    ensures
        acc.is_prefix_of(cfg.aliases_emit(acc, n)),
    decreases n,
{
    if n == 0 {
        lemma_prefix_append(acc, Seq::empty());
        assert(acc + Seq::<char>::empty() =~= acc);
    } else {
        let prev = cfg.aliases_emit(acc, (n - 1) as nat);
        let s = cfg.screens@[n - 1];
        lemma_aliases_extend(cfg, acc, (n - 1) as nat);
        if lists_aliases(s) {
            let h = prev + "    "@ + s.name@ + ":\n"@;
            lemma_prefix_append(prev, "    "@ + s.name@ + ":\n"@);
            assert(h =~= prev + ("    "@ + s.name@ + ":\n"@));
            lemma_alias_lines_extend(h, s.aliases@, s.aliases@.len());
            lemma_prefix_trans(prev, h, cfg.aliases_emit(acc, n));
        } else {
            lemma_prefix_append(prev, Seq::empty());
            assert(prev + Seq::<char>::empty() =~= prev);
        }
        lemma_prefix_trans(acc, prev, cfg.aliases_emit(acc, n));
    }
}

proof fn lemma_links_extend(cfg: ServerConfig, acc: Seq<char>, n: nat)
    requires
        n <= cfg.screens@.len(),
    ensures
        acc.is_prefix_of(cfg.links_emit(acc, n)),
    decreases n,
{
    if n == 0 {
        lemma_prefix_append(acc, Seq::empty());
        assert(acc + Seq::<char>::empty() =~= acc);
    } else {
        let prev = cfg.links_emit(acc, (n - 1) as nat);
        let i = n - 1;
        lemma_links_extend(cfg, acc, (n - 1) as nat);
        let x = "    "@ + cfg.screens@[i].name@ + ":\n"@ + cfg.link_lines(i, 4);
        lemma_prefix_append(prev, x);
        lemma_prefix_append(prev, Seq::empty());
        assert(prev + Seq::<char>::empty() =~= prev);
        assert(cfg.link_emit(prev, i) =~= prev + x || cfg.link_emit(prev, i) =~= prev);
        lemma_prefix_trans(acc, prev, cfg.links_emit(acc, n));
    }
}

proof fn lemma_append_if_extends(a: Seq<char>, c: bool, x: Seq<char>)
    ensures
        a.is_prefix_of(if c { a + x } else { a }),
{
    lemma_prefix_append(a, x);
    lemma_prefix_append(a, Seq::empty());
    assert(a + Seq::<char>::empty() =~= a);
}

proof fn lemma_prefix_append3(a: Seq<char>, x: Seq<char>, y: Seq<char>, z: Seq<char>)
    ensures
        a.is_prefix_of(a + x + y + z),
{
    assert(a =~= (a + x + y + z).subrange(0, a.len() as int));
}

#[verifier::rlimit(40)]
proof fn lemma_options_extend(cfg: ServerConfig, acc: Seq<char>)
    ensures
        acc.is_prefix_of(cfg.options_emit(acc)),
{
    let a0 = acc + "section: options\n"@;
    lemma_prefix_append(acc, "section: options\n"@);
    let a1 = if cfg.has_heartbeat {
        a0 + "    heartbeat = "@ + decimal(cfg.heartbeat as nat) + "\n"@
    } else {
        a0
    };
    lemma_prefix_append3(a0, "    heartbeat = "@, decimal(cfg.heartbeat as nat), "\n"@);
    lemma_append_if_extends(a0, false, Seq::empty());
    let a2 = line_if(a1, cfg.relative_mouse_moves, "    relativeMouseMoves = true\n"@);
    lemma_line_if_extends(a1, cfg.relative_mouse_moves, "    relativeMouseMoves = true\n"@);
    let a3 = line_if(a2, cfg.screen_saver_sync, "    screenSaverSync = true\n"@);
    lemma_line_if_extends(a2, cfg.screen_saver_sync, "    screenSaverSync = true\n"@);
    let a4 = line_if(a3, cfg.win32_keep_foreground, "    win32KeepForeground = true\n"@);
    lemma_line_if_extends(a3, cfg.win32_keep_foreground, "    win32KeepForeground = true\n"@);
    let a5 = a4 + "    clipboardSharing = "@ + bool_text(cfg.clipboard_sharing) + "\n"@;
    lemma_prefix_append3(a4, "    clipboardSharing = "@, bool_text(cfg.clipboard_sharing), "\n"@);
    let a6 = if cfg.has_switch_delay {
        a5 + "    switchDelay = "@ + decimal(cfg.switch_delay as nat) + "\n"@
    } else {
        a5
    };
    lemma_prefix_append3(a5, "    switchDelay = "@, decimal(cfg.switch_delay as nat), "\n"@);
    lemma_append_if_extends(a5, false, Seq::empty());
    let a7 = if cfg.has_switch_double_tap {
        a6 + "    switchDoubleTap = "@ + decimal(cfg.switch_double_tap as nat) + "\n"@
    } else {
        a6
    };
    lemma_prefix_append3(a6, "    switchDoubleTap = "@, decimal(cfg.switch_double_tap as nat), "\n"@);
    lemma_append_if_extends(a6, false, Seq::empty());
    let a8 = if any_flag(cfg.switch_corners@) {
        a7 + "    switchCorners = "@ + corner_names_text(cfg.switch_corners@) + "\n"@
    } else {
        a7
    };
    lemma_prefix_append3(a7, "    switchCorners = "@, corner_names_text(cfg.switch_corners@), "\n"@);
    lemma_append_if_extends(a7, false, Seq::empty());
    let a9 = if cfg.switch_corner_size > 0 {
        a8 + "    switchCornerSize = "@ + decimal(cfg.switch_corner_size as nat) + "\n"@
    } else {
        a8
    };
    lemma_prefix_append3(a8, "    switchCornerSize = "@, decimal(cfg.switch_corner_size as nat), "\n"@);
    lemma_append_if_extends(a8, false, Seq::empty());
    lemma_prefix_append(a9, "end\n"@);
    assert(cfg.options_emit(acc) == a9 + "end\n"@);
    lemma_prefix_trans(acc, a0, a1);
    lemma_prefix_trans(acc, a1, a2);
    lemma_prefix_trans(acc, a2, a3);
    lemma_prefix_trans(acc, a3, a4);
    lemma_prefix_trans(acc, a4, a5);
    lemma_prefix_trans(acc, a5, a6);
    lemma_prefix_trans(acc, a6, a7);
    lemma_prefix_trans(acc, a7, a8);
    lemma_prefix_trans(acc, a8, a9);
    lemma_prefix_trans(acc, a9, cfg.options_emit(acc));
}

/// What `to_barrier_config` writes holds every remap of every named screen
/// under the name of its own slot: when slot `k` (shift, ctrl, alt, meta,
/// super in that order) of the screen in cell `i` is remapped to `t`, the
/// text holds the line `        <slot name> = t`.
pub proof fn law_config_text_holds_each_remap(cfg: ServerConfig, i: int, k: int)
    requires
        0 <= i < cfg.screens@.len(),
        cfg.screens@[i].name@.len() > 0,
        0 <= k < 5,
        cfg.screens@[i].modifiers@[k] is Some,
    ensures
        exists|p: int|
            occurs_at(
                cfg.barrier_text(),
                remap_line(k, cfg.screens@[i].modifiers@[k]->0@),
                p,
            ),
{
    let n = cfg.screens@.len();
    let line = remap_line(k, cfg.screens@[i].modifiers@[k]->0@);
    let a = "# FlowDesk server configuration\n"@ + "section: screens\n"@;
    let before = cfg.screens_emit(a, i as nat);
    law_remap_written_under_its_slot(before, cfg.screens@[i], k);
    let p = choose|p: int| before.len() <= p && occurs_at(screen_emit(before, cfg.screens@[i]), line, p);
    assert(cfg.screens_emit(a, (i + 1) as nat) == screen_emit(before, cfg.screens@[i]));
    lemma_screens_extend(cfg, a, i, n);
    let sc = cfg.screens_emit(a, n);
    lemma_line_stays(cfg.screens_emit(a, (i + 1) as nat), sc, line, p);
    let b1 = sc + "end\n\n"@;
    lemma_prefix_append(sc, "end\n\n"@);
    let b2 = if cfg.any_alias() {
        cfg.aliases_emit(b1 + "section: aliases\n"@, n) + "end\n\n"@
    } else {
        b1
    };
    if cfg.any_alias() {
        let h = b1 + "section: aliases\n"@;
        lemma_prefix_append(b1, "section: aliases\n"@);
        lemma_aliases_extend(cfg, h, n);
        lemma_prefix_append(cfg.aliases_emit(h, n), "end\n\n"@);
        lemma_prefix_trans(b1, h, cfg.aliases_emit(h, n));
        lemma_prefix_trans(b1, cfg.aliases_emit(h, n), b2);
    } else {
        lemma_prefix_append(b1, Seq::empty());
        assert(b1 + Seq::<char>::empty() =~= b1);
    }
    let h3 = b2 + "section: links\n"@;
    lemma_prefix_append(b2, "section: links\n"@);
    lemma_links_extend(cfg, h3, n);
    let b3 = cfg.links_emit(h3, n) + "end\n\n"@;
    lemma_prefix_append(cfg.links_emit(h3, n), "end\n\n"@);
    lemma_options_extend(cfg, b3);
    assert(cfg.barrier_text() == cfg.options_emit(b3));
    lemma_prefix_trans(sc, b1, b2);
    lemma_prefix_trans(sc, b2, h3);
    lemma_prefix_trans(sc, h3, cfg.links_emit(h3, n));
    lemma_prefix_trans(sc, cfg.links_emit(h3, n), b3);
    lemma_prefix_trans(sc, b3, cfg.barrier_text());
    lemma_line_stays(sc, cfg.barrier_text(), line, p);
}

/// Two configurations that agree on everything the text shows: the grid,
/// the names of all cells, every field of the named cells, and the global
/// options that are written (a value counts only when its switch is on).
pub open spec fn same_text_inputs(c1: ServerConfig, c2: ServerConfig) -> bool {
    &&& c1.num_columns == c2.num_columns
    &&& c1.num_rows == c2.num_rows
    &&& c1.screens@.len() == c2.screens@.len()
    &&& forall|i: int|
        0 <= i < c1.screens@.len() ==> (#[trigger] c1.screens@[i]).name@ == c2.screens@[i].name@
    &&& forall|i: int|
        0 <= i < c1.screens@.len() && (#[trigger] c1.screens@[i]).name@.len() > 0 ==> c1.screens@[i]
            == c2.screens@[i]
    &&& c1.has_heartbeat == c2.has_heartbeat
    &&& c1.has_heartbeat ==> c1.heartbeat == c2.heartbeat
    &&& c1.relative_mouse_moves == c2.relative_mouse_moves
    &&& c1.screen_saver_sync == c2.screen_saver_sync
    &&& c1.win32_keep_foreground == c2.win32_keep_foreground
    &&& c1.clipboard_sharing == c2.clipboard_sharing
    &&& c1.has_switch_delay == c2.has_switch_delay
    &&& c1.has_switch_delay ==> c1.switch_delay == c2.switch_delay
    &&& c1.has_switch_double_tap == c2.has_switch_double_tap
    &&& c1.has_switch_double_tap ==> c1.switch_double_tap == c2.switch_double_tap
    &&& c1.switch_corner_size == c2.switch_corner_size
    &&& c1.switch_corners@ == c2.switch_corners@
}

proof fn lemma_same_neighbors(c1: ServerConfig, c2: ServerConfig, i: int, d: Direction)
    requires
        c1.wf(),
        same_text_inputs(c1, c2),
    ensures
        c1.neighbor(i, d) == c2.neighbor(i, d),
{
    if let Some(j) = c1.neighbor_index(i, d) {
        let cols = c1.num_columns as int;
        let rows = c1.num_rows as int;
        lemma_cell_index(cols, rows, i % cols + direction_offset(d).0, i / cols + direction_offset(d).1);
        assert(c1.screens@[j].name@ == c2.screens@[j].name@);
    }
}

proof fn lemma_same_link_lines(c1: ServerConfig, c2: ServerConfig, i: int, n: nat)
    requires
        c1.wf(),
        same_text_inputs(c1, c2),
        n <= 4,
    ensures
        c1.link_lines(i, n) == c2.link_lines(i, n),
    decreases n,
{
    if n > 0 {
        lemma_same_link_lines(c1, c2, i, (n - 1) as nat);
        lemma_same_neighbors(c1, c2, i, link_order()[n - 1]);
    }
}

proof fn lemma_same_sections(c1: ServerConfig, c2: ServerConfig, acc: Seq<char>, n: nat)
    requires
        c1.wf(),
        same_text_inputs(c1, c2),
        n <= c1.screens@.len(),
    ensures
        c1.screens_emit(acc, n) == c2.screens_emit(acc, n),
        c1.aliases_emit(acc, n) == c2.aliases_emit(acc, n),
        c1.links_emit(acc, n) == c2.links_emit(acc, n),
    decreases n,
{
    if n > 0 {
        lemma_same_sections(c1, c2, acc, (n - 1) as nat);
        let i = n - 1;
        assert(c1.screens@[i].name@ == c2.screens@[i].name@);
        if c1.screens@[i].name@.len() > 0 {
            assert(c1.screens@[i] == c2.screens@[i]);
        }
        lemma_same_link_lines(c1, c2, i, 4);
        assert forall|k: int| 0 <= k < 4 implies c1.neighbor(i, link_order()[k]) == c2.neighbor(
            i,
            link_order()[k],
        ) by {
            lemma_same_neighbors(c1, c2, i, link_order()[k]);
        }
        assert(c1.has_link(i) == c2.has_link(i));
    }
}

/// The text shows nothing else: configurations that agree on what it shows
/// give the same text, whatever their hotkeys, their auto-configuration and
/// drag-and-drop switches, the values of switched-off options and the other
/// fields of empty cells.
pub proof fn law_text_depends_only_on_shown_fields(c1: ServerConfig, c2: ServerConfig)
    requires
        c1.wf(),
        same_text_inputs(c1, c2),
    ensures
        c1.barrier_text() == c2.barrier_text(),
{
    let n = c1.screens@.len();
    let a0 = "# FlowDesk server configuration\n"@ + "section: screens\n"@;
    lemma_same_sections(c1, c2, a0, n);
    let a1 = c1.screens_emit(a0, n) + "end\n\n"@;
    lemma_same_sections(c1, c2, a1 + "section: aliases\n"@, n);
    assert(c1.any_alias() == c2.any_alias()) by {
        if c1.any_alias() {
            let i = choose|i: int| 0 <= i < c1.screens@.len() && lists_aliases(#[trigger] c1.screens@[i]);
            assert(c1.screens@[i] == c2.screens@[i]);
            assert(lists_aliases(c2.screens@[i]));
        }
        if c2.any_alias() {
            let i = choose|i: int| 0 <= i < c2.screens@.len() && lists_aliases(#[trigger] c2.screens@[i]);
            assert(c1.screens@[i].name@ == c2.screens@[i].name@);
            assert(c1.screens@[i] == c2.screens@[i]);
            assert(lists_aliases(c1.screens@[i]));
        }
    }
    let a2 = if c1.any_alias() {
        c1.aliases_emit(a1 + "section: aliases\n"@, n) + "end\n\n"@
    } else {
        a1
    };
    lemma_same_sections(c1, c2, a2 + "section: links\n"@, n);
}

fn corner_label_text(i: usize) -> (r: &'static str)
    ensures
        r@ == corner_label(i as int),
{
    if i == 0 {
        "TopLeft"
    } else if i == 1 {
        "TopRight"
    } else if i == 2 {
        "BottomLeft"
    } else {
        "BottomRight"
    }
}

/// Some corner flag is set.
fn any_corner(flags: &[bool; 4]) -> (r: bool)
    ensures
        r == any_flag(flags@),
{
    let mut i: usize = 0;
    while i < 4
        invariant
            i <= 4,
            flags@.len() == 4,
            forall|j: int| 0 <= j < i ==> !flags@[j],
        decreases 4 - i,
    {
        if flags[i] {
            return true;
        }
        i = i + 1;
    }
    false
}

/// The value of a `switchCorners` option: `none`, then ` + Name` for each
/// corner that is set, in the order TopLeft, TopRight, BottomLeft, BottomRight.
fn corner_names(flags: &[bool; 4]) -> (r: String)
    ensures
        r@ == corner_names_text(flags@),
{
    let mut out = String::from_str("none");
    let mut i: usize = 0;
    while i < 4
        invariant
            i <= 4,
            flags@.len() == 4,
            out@ == corner_list(flags@, i as nat),
        decreases 4 - i,
    {
        if flags[i] {
            out.append(" + ");
            out.append(corner_label_text(i));
        }
        i = i + 1;
    }
    out
}

fn push_bool(out: &mut String, b: bool)
    ensures
        final(out)@ == old(out)@ + bool_text(b),
{
    if b {
        out.append("true");
    } else {
        out.append("false");
    }
}

/// Appends the `screens` entry of one screen.
fn emit_screen(out: &mut String, s: &Screen)
    ensures
        final(out)@ == screen_emit(old(out)@, *s),
{
    if s.is_empty() {
        return;
    }
    out.append("    ");
    out.append(s.name.as_str());
    out.append(":\n");
    let ghost head = out@;
    let mods = Modifier::all();
    let mut i: usize = 0;
    while i < 5
        invariant
            i <= 5,
            mods@ == modifier_order(),
            s.modifiers@.len() == 5,
            out@ == modifiers_emit(head, *s, i as nat),
        decreases 5 - i,
    {
        match &s.modifiers[i] {
            Some(target) => {
                out.append("        ");
                out.append(mods[i].name());
                out.append(" = ");
                out.append(target.as_str());
                out.append("\n");
            },
            None => {},
        }
        i = i + 1;
    }
    if s.fixes.half_duplex_caps_lock {
        out.append("        halfDuplexCapsLock = true\n");
    }
    if s.fixes.half_duplex_num_lock {
        out.append("        halfDuplexNumLock = true\n");
    }
    if s.fixes.half_duplex_scroll_lock {
        out.append("        halfDuplexScrollLock = true\n");
    }
    if s.fixes.xtest_is_xinerama_unaware {
        out.append("        xtestIsXineramaUnaware = true\n");
    }
    if s.fixes.preserve_focus {
        out.append("        preserveFocus = true\n");
    }
    if any_corner(&s.switch_corners) {
        out.append("        switchCorners = ");
        let corners = corner_names(&s.switch_corners);
        out.append(corners.as_str());
        out.append("\n");
    }
    if s.switch_corner_size > 0 {
        out.append("        switchCornerSize = ");
        push_decimal(out, s.switch_corner_size as u64);
        out.append("\n");
    }
}

/// Appends the `aliases` entry of one screen.
fn emit_aliases(out: &mut String, s: &Screen)
    ensures
        final(out)@ == alias_emit(old(out)@, *s),
{
    if s.is_empty() || s.aliases.len() == 0 {
        return;
    }
    out.append("    ");
    out.append(s.name.as_str());
    out.append(":\n");
    let ghost head = out@;
    let mut i: usize = 0;
    while i < s.aliases.len()
        invariant
            i <= s.aliases@.len(),
            out@ == alias_lines(head, s.aliases@, i as nat),
        decreases s.aliases@.len() - i,
    {
        out.append("        ");
        out.append(s.aliases[i].as_str());
        out.append("\n");
        i = i + 1;
    }
}

impl ServerConfig {
    /// The index of the cell at (`col`, `row`), if it lies inside the grid.
    fn idx(&self, col: i64, row: i64) -> (r: Option<usize>)
        requires
            self.num_columns * self.num_rows <= usize::MAX,
        ensures
            r is Some <==> (0 <= col < self.num_columns && 0 <= row < self.num_rows),
            r matches Some(k) ==> k == row * self.num_columns + col,
            r matches Some(k) ==> k < self.num_columns * self.num_rows,
    {
        if col < 0 || row < 0 {
            return None;
        }
        let c = col as u64;
        let r = row as u64;
        if c >= self.num_columns as u64 || r >= self.num_rows as u64 {
            return None;
        }
        proof {
            lemma_cell_index(self.num_columns as int, self.num_rows as int, c as int, r as int);
        }
        Some((r * (self.num_columns as u64) + c) as usize)
    }

    /// The screen at (`col`, `row`), if that cell lies inside the grid.
    fn cell(&self, col: i64, row: i64) -> (r: Option<&Screen>)
        requires
            self.num_columns * self.num_rows <= self.screens@.len(),
        ensures
            r == (if 0 <= col < self.num_columns && 0 <= row < self.num_rows {
                Some(&self.screens@[row * self.num_columns + col])
            } else {
                None
            }),
    {
        let cells = self.screens.len();
        assert(self.num_columns * self.num_rows <= cells);
        match self.idx(col, row) {
            Some(i) => Some(&self.screens[i]),
            None => None,
        }
    }

    /// Name of the screen adjacent to `index` in `direction`, if any and non-empty.
    pub fn neighbor_name(&self, index: usize, direction: Direction) -> (r: Option<String>)
        requires
            self.wf(),
            index < self.screens@.len(),
        ensures
            r matches Some(n) ==> self.neighbor(index as int, direction) == Some(n@),
            r is None ==> self.neighbor(index as int, direction) is None,
    {
        let cols: usize = self.num_columns as usize;
        proof {
            assert(cols > 0) by (nonlinear_arith)
                requires
                    index < self.num_columns * self.num_rows,
                    cols == self.num_columns,
            ;
            lemma_cell_position(cols as int, self.num_rows as int, index as int);
        }
        let col: usize = index % cols;
        let row: usize = index / cols;
        let (dc, dr) = direction.offset();
        match self.cell(col as i64 + dc as i64, row as i64 + dr as i64) {
            Some(s) => {
                if s.is_empty() {
                    None
                } else {
                    Some(s.name.clone())
                }
            },
            None => None,
        }
    }

    /// Appends the `links` entry of cell `i`.
    fn emit_links(&self, out: &mut String, i: usize)
        requires
            self.wf(),
            i < self.screens@.len(),
        ensures
            final(out)@ == self.link_emit(old(out)@, i as int),
    {
        if self.screens[i].is_empty() {
            return;
        }
        let order: [Direction; 4] = [Direction::Down, Direction::Left, Direction::Right, Direction::Up];
        let mut lines = String::new();
        let mut found = false;
        let mut k: usize = 0;
        while k < 4
            invariant
                k <= 4,
                self.wf(),
                i < self.screens@.len(),
                order@ == link_order(),
                lines@ == self.link_lines(i as int, k as nat),
                found == exists|m: int| 0 <= m < k && (#[trigger] self.neighbor(i as int, link_order()[m])) is Some,
            decreases 4 - k,
        {
            let d = order[k];
            match self.neighbor_name(i, d) {
                Some(n) => {
                    lines.append("        ");
                    lines.append(d.name());
                    lines.append(" = ");
                    lines.append(n.as_str());
                    lines.append("\n");
                    found = true;
                },
                None => {},
            }
            proof {
                if !found {
                    assert forall|m: int| 0 <= m < k + 1 implies (#[trigger] self.neighbor(i as int, link_order()[m])) is None by {
                        if m == k {
                        }
                    }
                }
            }
            k = k + 1;
        }
        if found {
            out.append("    ");
            out.append(self.screens[i].name.as_str());
            out.append(":\n");
            out.append(lines.as_str());
        }
    }

    /// Serialize to the barrier text config format (consumed by `barriers -c`).
    pub fn to_barrier_config(&self) -> (r: String)
        requires
            self.wf(),
        ensures
            r@ == self.barrier_text(),
    {
        let n = self.screens.len();
        let mut out = String::from_str("# FlowDesk server configuration\n");
        out.append("section: screens\n");
        let ghost a0 = out@;
        let mut i: usize = 0;
        while i < n
            invariant
                i <= n,
                n == self.screens@.len(),
                out@ == self.screens_emit(a0, i as nat),
            decreases n - i,
        {
            emit_screen(&mut out, &self.screens[i]);
            i = i + 1;
        }
        out.append("end\n\n");

        let mut any_alias = false;
        let mut i: usize = 0;
        while i < n
            invariant
                i <= n,
                n == self.screens@.len(),
                any_alias == exists|j: int| 0 <= j < i && lists_aliases(#[trigger] self.screens@[j]),
            decreases n - i,
        {
            if !self.screens[i].is_empty() && self.screens[i].aliases.len() > 0 {
                any_alias = true;
            }
            i = i + 1;
        }
        if any_alias {
            out.append("section: aliases\n");
            let ghost a1 = out@;
            let mut i: usize = 0;
            while i < n
                invariant
                    i <= n,
                    n == self.screens@.len(),
                    out@ == self.aliases_emit(a1, i as nat),
                decreases n - i,
            {
                emit_aliases(&mut out, &self.screens[i]);
                i = i + 1;
            }
            out.append("end\n\n");
        }

        out.append("section: links\n");
        let ghost a2 = out@;
        let mut i: usize = 0;
        while i < n
            invariant
                i <= n,
                n == self.screens@.len(),
                self.wf(),
                out@ == self.links_emit(a2, i as nat),
            decreases n - i,
        {
            self.emit_links(&mut out, i);
            i = i + 1;
        }
        out.append("end\n\n");

        out.append("section: options\n");
        if self.has_heartbeat {
            out.append("    heartbeat = ");
            push_decimal(&mut out, self.heartbeat as u64);
            out.append("\n");
        }
        if self.relative_mouse_moves {
            out.append("    relativeMouseMoves = true\n");
        }
        if self.screen_saver_sync {
            out.append("    screenSaverSync = true\n");
        }
        if self.win32_keep_foreground {
            out.append("    win32KeepForeground = true\n");
        }
        out.append("    clipboardSharing = ");
        push_bool(&mut out, self.clipboard_sharing);
        out.append("\n");
        if self.has_switch_delay {
            out.append("    switchDelay = ");
            push_decimal(&mut out, self.switch_delay as u64);
            out.append("\n");
        }
        if self.has_switch_double_tap {
            out.append("    switchDoubleTap = ");
            push_decimal(&mut out, self.switch_double_tap as u64);
            out.append("\n");
        }
        if any_corner(&self.switch_corners) {
            out.append("    switchCorners = ");
            let corners = corner_names(&self.switch_corners);
            out.append(corners.as_str());
            out.append("\n");
        }
        if self.switch_corner_size > 0 {
            out.append("    switchCornerSize = ");
            push_decimal(&mut out, self.switch_corner_size as u64);
            out.append("\n");
        }
        // Hotkeys would be written as input-filter rules in this section.
        out.append("end\n");
        out
    }
}

} // verus!

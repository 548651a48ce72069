//! What scrolling does to the screen.

use vstd::prelude::*;
use crate::bios::cell;
use crate::machine::State;

verus! {

impl State {
    /// The screen is in memory and reached without paging.
    pub open spec fn screen_ok(self) -> bool {
        !self.cpu.pg() && self.mem.len() >= 0xB_8FA0
    }

    /// Character and attribute of a cell.
    pub open spec fn shown(self, row: int, col: int) -> (u8, u8) {
        let at = 0xB_8000 + 2 * (80 * row + col);
        (self.mem[at], self.mem[at + 1])
    }

    /// All but memory and what follows from it is as it was, and so is memory outside
    /// of the screen.
    pub open spec fn same_but_screen(self, s: State) -> bool {
        &&& self.mem.len() == s.mem.len()
        &&& self.cpu == s.cpu
        &&& forall|k: int|
            0 <= k < s.mem.len() && !(0xB_8000 <= k < 0xB_8FA0) ==> #[trigger] self.mem[k]
                == s.mem[k]
    }
}

/// A cell of a window.
pub open spec fn in_window(
    row: int,
    col: int,
    top: int,
    left: int,
    bottom: int,
    right: int,
) -> bool {
    top <= row <= bottom && left <= col <= right
}

proof fn lemma_byte(s: State, at: u32, v: u8)
    requires
        !s.cpu.pg(),
        at < s.mem.len(),
    ensures
        s.read8(at) == (s, s.mem[at as int]),
        s.write8(at, v).mem == s.mem.update(at as int, v),
        s.write8(at, v).cpu == s.cpu,
{
    reveal(State::read8);
    reveal(State::write8);
    reveal(State::phys8);
    reveal(State::with_phys8);
    reveal(State::translate);
}

proof fn lemma_cell_written(s: State, row: u32, col: u32, ch: u8, attr: u8)
    requires
        s.screen_ok(),
        row < 25,
        col < 80,
    ensures
        ({
            let t = s.cell_written(row, col, ch, attr);
            &&& t.screen_ok()
            &&& t.same_but_screen(s)
            &&& forall|r: int, q: int|
                0 <= r < 25 && 0 <= q < 80 ==> #[trigger] t.shown(r, q) == (if r == row && q == col {
                    (ch, attr)
                } else {
                    s.shown(r, q)
                })
        }),
{
    reveal(State::cell_written);
    let at = cell(row, col);
    lemma_byte(s, at, ch);
    lemma_byte(s.write8(at, ch), (at + 1) as u32, attr);
}

proof fn lemma_cells_copied(s: State, from: u32, to: u32, c: nat, right: nat)
    requires
        s.screen_ok(),
        from < 25,
        to < 25,
        from != to,
        right < 80,
    ensures
        ({
            let t = s.cells_copied(from, to, c, right);
            &&& t.screen_ok()
            &&& t.same_but_screen(s)
            &&& forall|r: int, q: int|
                0 <= r < 25 && 0 <= q < 80 ==> #[trigger] t.shown(r, q) == (if r == to && c <= q
                    <= right {
                    s.shown(from as int, q)
                } else {
                    s.shown(r, q)
                })
        }),
    decreases right + 1 - c,
{
    reveal_with_fuel(State::cells_copied, 2);
    if c <= right {
        let at = cell(from, c as u32);
        lemma_byte(s, at, 0);
        lemma_byte(s, (at + 1) as u32, 0);
        let (ch, attr) = s.shown(from as int, c as int);
        lemma_cell_written(s, to, c as u32, ch, attr);
        let u = s.cell_written(to, c as u32, ch, attr);
        lemma_cells_copied(u, from, to, c + 1, right);
        let t = s.cells_copied(from, to, c, right);
        assert forall|r: int, q: int| 0 <= r < 25 && 0 <= q < 80 implies #[trigger] t.shown(r, q)
            == (if r == to && c <= q <= right {
            s.shown(from as int, q)
        } else {
            s.shown(r, q)
        }) by {
            assert(u.shown(r, q) == u.shown(r, q));
            assert(u.shown(from as int, q) == s.shown(from as int, q));
        }
    }
}

proof fn lemma_cells_blanked(s: State, row: u32, c: nat, right: nat, attr: u8)
    requires
        s.screen_ok(),
        row < 25,
        right < 80,
    ensures
        ({
            let t = s.cells_blanked(row, c, right, attr);
            &&& t.screen_ok()
            &&& t.same_but_screen(s)
            &&& forall|r: int, q: int|
                0 <= r < 25 && 0 <= q < 80 ==> #[trigger] t.shown(r, q) == (if r == row && c <= q
                    <= right {
                    (0x20u8, attr)
                } else {
                    s.shown(r, q)
                })
        }),
    decreases right + 1 - c,
{
    reveal_with_fuel(State::cells_blanked, 2);
    if c <= right {
        lemma_cell_written(s, row, c as u32, 0x20, attr);
        let u = s.cell_written(row, c as u32, 0x20, attr);
        lemma_cells_blanked(u, row, c + 1, right, attr);
        let t = s.cells_blanked(row, c, right, attr);
        assert forall|r: int, q: int| 0 <= r < 25 && 0 <= q < 80 implies #[trigger] t.shown(r, q)
            == (if r == row && c <= q <= right {
            (0x20u8, attr)
        } else {
            s.shown(r, q)
        }) by {
            assert(u.shown(r, q) == u.shown(r, q));
        }
    }
}

proof fn lemma_rows_blanked(s: State, row: nat, bottom: nat, left: nat, right: nat, attr: u8)
    requires
        s.screen_ok(),
        bottom < 25,
        right < 80,
    ensures
        ({
            let t = s.rows_blanked(row, bottom, left, right, attr);
            &&& t.screen_ok()
            &&& t.same_but_screen(s)
            &&& forall|r: int, q: int|
                0 <= r < 25 && 0 <= q < 80 ==> #[trigger] t.shown(r, q) == (if in_window(
                    r,
                    q,
                    row as int,
                    left as int,
                    bottom as int,
                    right as int,
                ) {
                    (0x20u8, attr)
                } else {
                    s.shown(r, q)
                })
        }),
    decreases bottom + 1 - row,
{
    reveal_with_fuel(State::rows_blanked, 2);
    if row <= bottom {
        lemma_cells_blanked(s, row as u32, left, right, attr);
        let u = s.cells_blanked(row as u32, left, right, attr);
        lemma_rows_blanked(u, row + 1, bottom, left, right, attr);
        let t = s.rows_blanked(row, bottom, left, right, attr);
        assert forall|r: int, q: int| 0 <= r < 25 && 0 <= q < 80 implies #[trigger] t.shown(r, q)
            == (if in_window(r, q, row as int, left as int, bottom as int, right as int) {
            (0x20u8, attr)
        } else {
            s.shown(r, q)
        }) by {
            assert(u.shown(r, q) == u.shown(r, q));
        }
    }
}

proof fn lemma_rows_up(s: State, row: nat, bottom: nat, left: nat, right: nat)
    requires
        s.screen_ok(),
        bottom < 25,
        right < 80,
    ensures
        ({
            let t = s.rows_up(row, bottom, left, right);
            &&& t.screen_ok()
            &&& t.same_but_screen(s)
            &&& forall|r: int, q: int|
                0 <= r < 25 && 0 <= q < 80 ==> #[trigger] t.shown(r, q) == (if row <= r < bottom
                    && left <= q <= right {
                    s.shown(r + 1, q)
                } else {
                    s.shown(r, q)
                })
        }),
    decreases bottom - row,
{
    reveal_with_fuel(State::rows_up, 2);
    if row < bottom {
        lemma_cells_copied(s, (row + 1) as u32, row as u32, left, right);
        let u = s.cells_copied((row + 1) as u32, row as u32, left, right);
        lemma_rows_up(u, row + 1, bottom, left, right);
        let t = s.rows_up(row, bottom, left, right);
        assert forall|r: int, q: int| 0 <= r < 25 && 0 <= q < 80 implies #[trigger] t.shown(r, q)
            == (if row <= r < bottom && left <= q <= right {
            s.shown(r + 1, q)
        } else {
            s.shown(r, q)
        }) by {
            assert(u.shown(r, q) == u.shown(r, q));
            if r + 1 < 25 {
                assert(u.shown(r + 1, q) == u.shown(r + 1, q));
            }
        }
    }
}

proof fn lemma_rows_down(s: State, row: nat, top: nat, left: nat, right: nat)
    requires
        s.screen_ok(),
        row < 25,
        right < 80,
    ensures
        ({
            let t = s.rows_down(row, top, left, right);
            &&& t.screen_ok()
            &&& t.same_but_screen(s)
            &&& forall|r: int, q: int|
                0 <= r < 25 && 0 <= q < 80 ==> #[trigger] t.shown(r, q) == (if top < r <= row && left
                    <= q <= right {
                    s.shown(r - 1, q)
                } else {
                    s.shown(r, q)
                })
        }),
    decreases row,
{
    reveal_with_fuel(State::rows_down, 2);
    if row > top {
        lemma_cells_copied(s, (row - 1) as u32, row as u32, left, right);
        let u = s.cells_copied((row - 1) as u32, row as u32, left, right);
        lemma_rows_down(u, (row - 1) as nat, top, left, right);
        let t = s.rows_down(row, top, left, right);
        assert forall|r: int, q: int| 0 <= r < 25 && 0 <= q < 80 implies #[trigger] t.shown(r, q)
            == (if top < r <= row && left <= q <= right {
            s.shown(r - 1, q)
        } else {
            s.shown(r, q)
        }) by {
            assert(u.shown(r, q) == u.shown(r, q));
            if r >= 1 {
                assert(u.shown(r - 1, q) == u.shown(r - 1, q));
            }
        }
    }
}

/// What a window shows after it moved by `n` rows.
pub open spec fn after_move(
    s: State,
    n: int,
    top: int,
    left: int,
    bottom: int,
    right: int,
    attr: u8,
    up: bool,
    row: int,
    col: int,
) -> (u8, u8) {
    if !in_window(row, col, top, left, bottom, right) {
        s.shown(row, col)
    } else if up && row + n <= bottom {
        s.shown(row + n, col)
    } else if !up && row - n >= top {
        s.shown(row - n, col)
    } else {
        (0x20, attr)
    }
}

proof fn lemma_moved_once(
    s: State,
    top: nat,
    left: nat,
    bottom: nat,
    right: nat,
    attr: u8,
    up: bool,
)
    requires
        s.screen_ok(),
        top <= bottom < 25,
        left <= right < 80,
    ensures
        ({
            let t = s.moved_once(top, left, bottom, right, attr, up);
            &&& t.screen_ok()
            &&& t.same_but_screen(s)
            &&& forall|r: int, q: int|
                0 <= r < 25 && 0 <= q < 80 ==> #[trigger] t.shown(r, q) == after_move(
                    s,
                    1,
                    top as int,
                    left as int,
                    bottom as int,
                    right as int,
                    attr,
                    up,
                    r,
                    q,
                )
        }),
{
    reveal(State::moved_once);
    let t = s.moved_once(top, left, bottom, right, attr, up);
    let u = if up {
        s.rows_up(top, bottom, left, right)
    } else {
        s.rows_down(bottom, top, left, right)
    };
    if up {
        lemma_rows_up(s, top, bottom, left, right);
        lemma_cells_blanked(u, bottom as u32, left, right, attr);
    } else {
        lemma_rows_down(s, bottom, top, left, right);
        lemma_cells_blanked(u, top as u32, left, right, attr);
    }
    assert forall|r: int, q: int| 0 <= r < 25 && 0 <= q < 80 implies #[trigger] t.shown(r, q)
        == after_move(
        s,
        1,
        top as int,
        left as int,
        bottom as int,
        right as int,
        attr,
        up,
        r,
        q,
    ) by {
        assert(u.shown(r, q) == u.shown(r, q));
    }
}

proof fn lemma_moved(
    s: State,
    n: nat,
    top: nat,
    left: nat,
    bottom: nat,
    right: nat,
    attr: u8,
    up: bool,
)
    requires
        s.screen_ok(),
        top <= bottom < 25,
        left <= right < 80,
    ensures
        ({
            let t = s.moved(n, top, left, bottom, right, attr, up);
            &&& t.screen_ok()
            &&& t.same_but_screen(s)
            &&& forall|r: int, q: int|
                0 <= r < 25 && 0 <= q < 80 ==> #[trigger] t.shown(r, q) == after_move(
                    s,
                    n as int,
                    top as int,
                    left as int,
                    bottom as int,
                    right as int,
                    attr,
                    up,
                    r,
                    q,
                )
        }),
    decreases n,
{
    reveal_with_fuel(State::moved, 2);
    if n > 0 {
        lemma_moved_once(s, top, left, bottom, right, attr, up);
        let u = s.moved_once(top, left, bottom, right, attr, up);
        lemma_moved(u, (n - 1) as nat, top, left, bottom, right, attr, up);
        let t = s.moved(n, top, left, bottom, right, attr, up);
        assert forall|r: int, q: int| 0 <= r < 25 && 0 <= q < 80 implies #[trigger] t.shown(r, q)
            == after_move(
            s,
            n as int,
            top as int,
            left as int,
            bottom as int,
            right as int,
            attr,
            up,
            r,
            q,
        ) by {
            assert(u.shown(r, q) == u.shown(r, q));
            if in_window(r, q, top as int, left as int, bottom as int, right as int) {
                if up && r + n - 1 <= bottom {
                    assert(u.shown(r + (n - 1), q) == u.shown(r + (n - 1), q));
                }
                if !up && r - n + 1 >= top {
                    assert(u.shown(r - (n - 1), q) == u.shown(r - (n - 1), q));
                }
            }
        }
    }
}

/// Scrolling: every row of the window shows what was so many rows below it, or above
/// it, the rows that become free are blank, and nothing else changes. By no rows, or
/// by all of them, the window becomes blank.
pub proof fn law_scrolled(
    s: State,
    top: nat,
    left: nat,
    bottom: nat,
    right: nat,
    lines: u8,
    attr: u8,
    up: bool,
)
    requires
        s.screen_ok(),
        top <= bottom < 25,
        left <= right < 80,
    ensures
        ({
            let t = s.scrolled(top, left, bottom, right, lines, attr, up);
            let n: int = if lines == 0 {
                bottom - top + 1
            } else {
                lines as int
            };
            &&& t.same_but_screen(s)
            &&& forall|r: int, q: int|
                0 <= r < 25 && 0 <= q < 80 ==> #[trigger] t.shown(r, q) == after_move(
                    s,
                    n,
                    top as int,
                    left as int,
                    bottom as int,
                    right as int,
                    attr,
                    up,
                    r,
                    q,
                )
        }),
{
    reveal(State::scrolled);
    if lines == 0 {
        let row = if up { bottom } else { top };
        lemma_cells_blanked(s, row as u32, left, right, attr);
        let u = s.cells_blanked(row as u32, left, right, attr);
        lemma_rows_blanked(u, top, bottom, left, right, attr);
        let t = s.scrolled(top, left, bottom, right, lines, attr, up);
        assert forall|r: int, q: int| 0 <= r < 25 && 0 <= q < 80 implies #[trigger] t.shown(r, q)
            == after_move(
            s,
            bottom - top + 1,
            top as int,
            left as int,
            bottom as int,
            right as int,
            attr,
            up,
            r,
            q,
        ) by {
            assert(u.shown(r, q) == u.shown(r, q));
        }
    } else {
        let rows: nat = (bottom - top + 1) as nat;
        let n: nat = if lines as nat > rows { rows } else { lines as nat };
        lemma_moved(s, n, top, left, bottom, right, attr, up);
    }
}

} // verus!

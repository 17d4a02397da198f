//! What the keyboard and the scroll wheel do to a view: they move its window
//! or, with shift held, its selection.

use crate::diff::{first_after, DiffEngine};
use crate::hex_view::{clamped, last_row_start, lemma_last_row_start_bounds, HexView};
use crate::selection::{HexViewSelection, HexViewSelectionRange};
use vstd::prelude::*;

verus! {

/// The keys that were pressed during a step.
#[derive(Clone, Copy, Debug, PartialEq, Eq, Structural)]
pub struct KeyInput {
    pub shift: bool,
    pub arrow_left: bool,
    pub arrow_right: bool,
    pub arrow_up: bool,
    pub arrow_down: bool,
    pub home: bool,
    pub end: bool,
    pub page_up: bool,
    pub page_down: bool,
    pub enter: bool,
}

/// A selection with both anchors moved by `delta`.
pub open spec fn slid(sel: HexViewSelection, delta: int) -> HexViewSelection {
    HexViewSelection {
        range: HexViewSelectionRange {
            first: (sel.range.first + delta) as usize,
            second: (sel.range.second + delta) as usize,
        },
        ..sel
    }
}

/// The selection of a file of `len` bytes, shown `per_row` to a row, after
/// the arrow keys: left and right move it by one byte, up and down by one
/// row, each only while both ends stay inside the file.
pub open spec fn selection_after_arrows(
    sel: HexViewSelection,
    keys: KeyInput,
    len: int,
    per_row: int,
) -> HexViewSelection {
    let s1 = if keys.arrow_left && sel.spec_start() > 0 {
        slid(sel, -1)
    } else {
        sel
    };
    let s2 = if keys.arrow_right && s1.spec_end() + 1 < len {
        slid(s1, 1)
    } else {
        s1
    };
    let s3 = if keys.arrow_up && s2.spec_start() >= per_row {
        slid(s2, -per_row)
    } else {
        s2
    };
    if keys.arrow_down && s3.spec_end() + per_row < len {
        slid(s3, per_row)
    } else {
        s3
    }
}

/// Whether the arrow keys move the selection at all.
pub open spec fn arrows_move_selection(
    sel: HexViewSelection,
    keys: KeyInput,
    len: int,
    per_row: int,
) -> bool {
    let s1 = if keys.arrow_left && sel.spec_start() > 0 {
        slid(sel, -1)
    } else {
        sel
    };
    let s2 = if keys.arrow_right && s1.spec_end() + 1 < len {
        slid(s1, 1)
    } else {
        s1
    };
    let s3 = if keys.arrow_up && s2.spec_start() >= per_row {
        slid(s2, -per_row)
    } else {
        s2
    };
    ||| keys.arrow_left && sel.spec_start() > 0
    ||| keys.arrow_right && s1.spec_end() + 1 < len
    ||| keys.arrow_up && s2.spec_start() >= per_row
    ||| keys.arrow_down && s3.spec_end() + per_row < len
}

/// The view after the enter key. With differences shown, the window jumps to
/// the row of the first difference behind the screen, or to the last
/// screenful if there is none; it stays if the screen already reaches the end
/// of the file. Without, the window moves one screen down.
pub open spec fn after_enter(view: HexView, diff_enabled: bool, diffs: Seq<usize>) -> HexView {
    let screen = view.spec_bytes_per_screen();
    let behind = view.cur_pos + screen;
    if !diff_enabled {
        view.moved(screen)
    } else if behind < view.len() {
        match first_after(diffs, behind as usize) {
            Some(next) => view.placed(next - next % view.bytes_per_row),
            None => if view.len() >= screen {
                view.placed(view.len() - screen)
            } else {
                view
            },
        }
    } else {
        view
    }
}

/// The view after home, end, page up and page down, taken in this order.
pub open spec fn after_jump_keys(view: HexView, keys: KeyInput) -> HexView {
    let screen = view.spec_bytes_per_screen();
    let v1 = if keys.home {
        view.placed(0)
    } else {
        view
    };
    let v2 = if keys.end && view.len() >= screen {
        v1.placed(view.len() - screen)
    } else {
        v1
    };
    let v3 = if keys.page_up {
        v2.moved(-screen)
    } else {
        v2
    };
    if keys.page_down {
        v3.moved(screen)
    } else {
        v3
    }
}

/// The view after the arrow keys, taken in the order left, right, up, down:
/// left and right move the window by one byte, up and down by one row.
pub open spec fn after_arrow_keys(view: HexView, keys: KeyInput) -> HexView {
    let row = view.bytes_per_row as int;
    let v1 = if keys.arrow_left {
        view.moved(-1)
    } else {
        view
    };
    let v2 = if keys.arrow_right {
        v1.moved(1)
    } else {
        v1
    };
    let v3 = if keys.arrow_up {
        v2.moved(-row)
    } else {
        v2
    };
    if keys.arrow_down {
        v3.moved(row)
    } else {
        v3
    }
}

/// The view after a turn of the wheel by `scroll_rows` rows. A positive turn
/// moves the window towards the first byte.
pub open spec fn after_wheel(view: HexView, scroll_rows: int) -> HexView {
    if scroll_rows != 0 {
        view.moved(-(scroll_rows * view.bytes_per_row))
    } else {
        view
    }
}

/// The view after the keys of one step and a turn of the wheel: first home,
/// end and the page keys, then the arrows, then enter, then the wheel.
#[verifier::opaque]
pub open spec fn after_keys(
    view: HexView,
    keys: KeyInput,
    diff_enabled: bool,
    diffs: Seq<usize>,
    scroll_rows: int,
) -> HexView {
    let arrowed = after_arrow_keys(after_jump_keys(view, keys), keys);
    let entered = if keys.enter {
        after_enter(arrowed, diff_enabled, diffs)
    } else {
        arrowed
    };
    after_wheel(entered, scroll_rows)
}

/// The size of `n` without its sign.
fn magnitude(n: isize) -> (r: usize)
    ensures
        r == if n < 0 {
            -(n as int)
        } else {
            n as int
        },
{
    if n >= 0 {
        n as usize
    } else {
        (-(n + 1)) as usize + 1
    }
}

impl HexViewSelection {
    /// Moves both anchors by `amount`, down if `back` is set and up otherwise.
    fn slide(&mut self, amount: usize, back: bool)
        requires
            back ==> old(self).spec_start() >= amount,
            !back ==> old(self).spec_end() + amount <= usize::MAX,
        ensures
            *final(self) == slid(
                *old(self),
                if back {
                    -(amount as int)
                } else {
                    amount as int
                },
            ),
    {
        if back {
            self.range.first = self.range.first - amount;
            self.range.second = self.range.second - amount;
        } else {
            self.range.first = self.range.first + amount;
            self.range.second = self.range.second + amount;
        }
    }

    /// Moves the selection of a file of `len` bytes, shown `per_row` to a row,
    /// as the arrow keys say, and tells whether it moved.
    pub fn follow_arrows(&mut self, keys: KeyInput, len: usize, per_row: usize) -> (changed: bool)
        ensures
            *final(self) == selection_after_arrows(*old(self), keys, len as int, per_row as int),
            changed == arrows_move_selection(*old(self), keys, len as int, per_row as int),
    {
        let mut changed = false;
        if keys.arrow_left && self.start() > 0 {
            self.slide(1, true);
            changed = true;
        }
        if keys.arrow_right && self.end() < len && self.end() + 1 < len {
            self.slide(1, false);
            changed = true;
        }
        if keys.arrow_up && self.start() >= per_row {
            self.slide(per_row, true);
            changed = true;
        }
        if keys.arrow_down && self.end() < len && per_row < len - self.end() {
            self.slide(per_row, false);
            changed = true;
        }
        changed
    }
}

impl HexView {
    /// Moves the selection as the arrow keys say and tells whether it moved.
    pub fn move_selection(&mut self, keys: KeyInput) -> (changed: bool)
        ensures
            *final(self) == (HexView {
                selection: selection_after_arrows(
                    old(self).selection,
                    keys,
                    old(self).len(),
                    old(self).bytes_per_row as int,
                ),
                ..*old(self)
            }),
            changed == arrows_move_selection(
                old(self).selection,
                keys,
                old(self).len(),
                old(self).bytes_per_row as int,
            ),
    {
        let len: usize = self.file.bytes.len();
        let per_row: usize = self.bytes_per_row;
        self.selection.follow_arrows(keys, len, per_row)
    }

    /// Applies home, end and the page keys to the window.
    pub fn handle_jump_keys(&mut self, keys: KeyInput)
        requires
            old(self).wf(),
        ensures
            *final(self) == after_jump_keys(*old(self), keys),
    {
        let screen: usize = self.bytes_per_screen();
        let len: usize = self.file.bytes.len();
        if keys.home {
            self.set_cur_pos(0);
        }
        if keys.end && len >= screen {
            self.set_cur_pos(len - screen);
        }
        if keys.page_up {
            self.shift_view(screen, true);
        }
        if keys.page_down {
            self.shift_view(screen, false);
        }
    }

    /// Applies the arrow keys to the window.
    pub fn handle_arrow_keys(&mut self, keys: KeyInput)
        requires
            old(self).wf(),
        ensures
            *final(self) == after_arrow_keys(*old(self), keys),
    {
        let row: usize = self.bytes_per_row;
        if keys.arrow_left {
            self.shift_view(1, true);
        }
        if keys.arrow_right {
            self.shift_view(1, false);
        }
        if keys.arrow_up {
            self.shift_view(row, true);
        }
        if keys.arrow_down {
            self.shift_view(row, false);
        }
    }

    /// Applies the enter key to the window.
    pub fn handle_enter(&mut self, diff_state: &DiffEngine)
        requires
            old(self).wf(),
        ensures
            *final(self) == after_enter(*old(self), diff_state.spec_enabled(), diff_state@),
    {
        let screen: usize = self.bytes_per_screen();
        let len: usize = self.file.bytes.len();
        let row: usize = self.bytes_per_row;
        if !diff_state.enabled() {
            self.shift_view(screen, false);
        } else if self.cur_pos < len && screen < len - self.cur_pos {
            match diff_state.get_next_diff(self.cur_pos + screen) {
                Some(next) => {
                    assert(next % row <= next) by (nonlinear_arith)
                        requires
                            row > 0,
                    ;
                    self.set_cur_pos(next - next % row);
                },
                None => {
                    if len >= screen {
                        self.set_cur_pos(len - screen);
                    }
                },
            }
        }
    }

    /// Applies a turn of the wheel by `scroll_rows` rows to the window.
    pub fn handle_wheel(&mut self, scroll_rows: isize)
        requires
            old(self).wf(),
        ensures
            *final(self) == after_wheel(*old(self), scroll_rows as int),
    {
        if scroll_rows != 0 {
            let row: usize = self.bytes_per_row;
            let len: usize = self.file.bytes.len();
            let rows: usize = magnitude(scroll_rows);
            let ghost exact: int = rows * row;
            let amount: usize = match rows.checked_mul(row) {
                Some(product) => product,
                None => usize::MAX,
            };
            proof {
                assert(scroll_rows * row == if scroll_rows > 0 {
                    exact
                } else {
                    -exact
                }) by (nonlinear_arith)
                    requires
                        exact == rows * row,
                        rows == if scroll_rows < 0 {
                            -(scroll_rows as int)
                        } else {
                            scroll_rows as int
                        },
                ;
                lemma_last_row_start_bounds(self.len(), row as int);
            }
            let ghost before = *self;
            self.shift_view(amount, scroll_rows > 0);
            proof {
                let last = last_row_start(before.len(), row as int);
                let wanted: int = -(scroll_rows * row);
                let used: int = if scroll_rows > 0 {
                    -(amount as int)
                } else {
                    amount as int
                };
                assert(amount == exact || (amount == usize::MAX && exact > usize::MAX));
                assert(wanted == if scroll_rows > 0 {
                    -exact
                } else {
                    exact
                });
                assert(0 <= last <= len);
                assert(clamped(before.cur_pos + wanted, last) == clamped(
                    before.cur_pos + used,
                    last,
                ));
                assert(before.moved(wanted) == before.moved(used));
            }
        }
    }

    /// Applies the keys of one step and a turn of the wheel to the window.
    pub fn handle_view_keys(&mut self, keys: KeyInput, diff_state: &DiffEngine, scroll_rows: isize)
        requires
            old(self).wf(),
        ensures
            *final(self) == after_keys(
                *old(self),
                keys,
                diff_state.spec_enabled(),
                diff_state@,
                scroll_rows as int,
            ),
            final(self).wf(),
    {
        reveal(after_keys);
        self.handle_jump_keys(keys);
        self.handle_arrow_keys(keys);
        if keys.enter {
            self.handle_enter(diff_state);
        }
        self.handle_wheel(scroll_rows);
    }
}

} // verus!

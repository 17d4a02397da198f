//! One open file as it is looked at: the window of bytes on screen, the
//! selection, the pointer position and the symbol map that goes with it.

use crate::bin_file::{BinaryFile, IoError};
use crate::map_text::{Symbol, SymbolEntry};
use crate::selection::{
    shift_anchor, HexViewSelection, HexViewSelectionRange, HexViewSelectionSide,
    HexViewSelectionState,
};
use crate::symbols::{floor_symbol, MapFile};
use vstd::prelude::*;
use vstd::slice::{slice_subrange, slice_to_vec};

verus! {

/// The fewest rows a fresh view shows.
pub const MIN_ROWS: usize = 10;

/// The most rows a fresh view shows.
pub const MAX_ROWS: usize = 25;

/// The number of bytes in a row of a fresh view.
pub const DEFAULT_BYTES_PER_ROW: usize = 0x10;

/// What the primary pointer button is doing.
#[derive(Clone, Copy, Debug, PartialEq, Eq, Structural)]
pub enum CursorState {
    Hovering,
    Pressed,
    StillDown,
    Released,
}

impl CursorState {
    /// The state that three readings of the button give: a press wins over a
    /// held button, which wins over a release.
    pub fn from_buttons(pressed: bool, down: bool, released: bool) -> (r: Self)
        ensures
            r == if pressed {
                CursorState::Pressed
            } else if down {
                CursorState::StillDown
            } else if released {
                CursorState::Released
            } else {
                CursorState::Hovering
            },
    {
        if pressed {
            CursorState::Pressed
        } else if down {
            CursorState::StillDown
        } else if released {
            CursorState::Released
        } else {
            CursorState::Hovering
        }
    }
}

/// What the pointer does to one byte cell during a step.
#[derive(Clone, Copy, Debug, PartialEq, Eq, Structural)]
pub struct PointerEvent {
    /// The cell is hovered.
    pub hovered: bool,
    /// The pointer lies inside the cell's rectangle.
    pub inside: bool,
    /// The cell was clicked with the middle button.
    pub middle_clicked: bool,
    pub cursor_state: CursorState,
}

/// The range of a selection that lies inside its file, with the symbol that
/// encloses its start.
#[derive(Debug)]
pub struct SelectionInfo<'a> {
    pub start: usize,
    pub end: usize,
    pub length: usize,
    pub symbol: Option<(&'a SymbolEntry, usize)>,
}

/// The offset under the pointer, with the symbol that encloses it.
#[derive(Debug)]
pub struct CursorInfo<'a> {
    pub pos: usize,
    pub symbol: Option<(&'a SymbolEntry, usize)>,
}

/// A found symbol as the contracts see it.
pub open spec fn hit_view(hit: Option<(&SymbolEntry, usize)>) -> Option<(Symbol, usize)> {
    match hit {
        Some((entry, offset)) => Some((entry@, offset)),
        None => None,
    }
}

/// The start of the last row of a file of `len` bytes shown `bytes_per_row`
/// to a row.
pub open spec fn last_row_start(len: int, bytes_per_row: int) -> int {
    (len / bytes_per_row) * bytes_per_row
}

/// The last row starts inside the file.
pub proof fn lemma_last_row_start_bounds(len: int, bytes_per_row: int)
    requires
        0 <= len,
        0 < bytes_per_row,
    ensures
        0 <= last_row_start(len, bytes_per_row) <= len,
{
    assert(0 <= (len / bytes_per_row) * bytes_per_row <= len) by (nonlinear_arith)
        requires
            0 <= len,
            0 < bytes_per_row,
    ;
}

/// `val` kept inside `[0, top]`.
pub open spec fn clamped(val: int, top: int) -> int {
    if val < 0 {
        0
    } else if val > top {
        top
    } else {
        val
    }
}

/// The number of rows a fresh view of `len` bytes shows.
pub open spec fn initial_rows(len: int) -> int {
    let rows = len / (DEFAULT_BYTES_PER_ROW as int);
    if rows < MIN_ROWS {
        MIN_ROWS as int
    } else if rows > MAX_ROWS {
        MAX_ROWS as int
    } else {
        rows
    }
}

/// What a pointer event on the cell at `pos` makes of a selection: a press on
/// a hovered cell starts a selection, a held or released button over the cell
/// moves or ends a running one, a middle click drops it.
pub open spec fn selection_after_pointer(
    sel: HexViewSelection,
    event: PointerEvent,
    pos: usize,
    side: HexViewSelectionSide,
) -> HexViewSelection {
    let begun = if event.hovered && event.cursor_state == CursorState::Pressed {
        HexViewSelection {
            range: HexViewSelectionRange { first: pos, second: pos },
            state: HexViewSelectionState::Selecting,
            side,
        }
    } else {
        sel
    };
    let dragged = if event.inside && begun.state == HexViewSelectionState::Selecting {
        match event.cursor_state {
            CursorState::StillDown => HexViewSelection {
                range: HexViewSelectionRange { first: begun.range.first, second: pos },
                ..begun
            },
            CursorState::Released => HexViewSelection {
                range: HexViewSelectionRange { first: begun.range.first, second: pos },
                state: HexViewSelectionState::Selected,
                side: begun.side,
            },
            _ => begun,
        }
    } else {
        begun
    };
    if event.middle_clicked {
        HexViewSelection::cleared()
    } else {
        dragged
    }
}

/// A view onto one file.
#[derive(Debug)]
pub struct HexView {
    pub id: usize,
    pub file: BinaryFile,
    pub num_rows: u32,
    pub bytes_per_row: usize,
    pub cur_pos: usize,
    pub pos_locked: bool,
    pub selection: HexViewSelection,
    pub cursor_pos: Option<usize>,
    pub show_selection_info: bool,
    pub show_cursor_info: bool,
    pub map_file: Option<MapFile>,
    pub closed: bool,
}

/// The bytes `bytes[from..to]`.
fn copy_range(bytes: &Vec<u8>, from: usize, to: usize) -> (r: Vec<u8>)
    requires
        from <= to <= bytes.len(),
    ensures
        r@ == bytes@.subrange(from as int, to as int),
{
    slice_to_vec(slice_subrange(bytes.as_slice(), from, to))
}

impl HexView {
    /// A row holds at least one byte, and a screenful can be counted.
    pub open spec fn wf(&self) -> bool {
        &&& self.bytes_per_row > 0
        &&& self.bytes_per_row * self.num_rows <= usize::MAX
    }

    /// Number of bytes in the file.
    pub open spec fn len(&self) -> int {
        self.file@.len() as int
    }

    /// Number of bytes that fit on the screen.
    pub open spec fn spec_bytes_per_screen(&self) -> int {
        self.bytes_per_row * self.num_rows
    }

    /// The bytes on screen: from the current position to the end of the screen
    /// or of the file, whichever comes first.
    pub open spec fn visible_bytes(&self) -> Seq<u8> {
        if self.cur_pos >= self.len() {
            Seq::empty()
        } else if self.cur_pos + self.spec_bytes_per_screen() >= self.len() {
            self.file@.subrange(self.cur_pos as int, self.len())
        } else {
            self.file@.subrange(self.cur_pos as int, self.cur_pos + self.spec_bytes_per_screen())
        }
    }

    /// The selected bytes: those from the selection's start to its end, both
    /// included, when there is a selection and it lies inside the file.
    pub open spec fn selected_bytes(&self) -> Seq<u8> {
        if self.selection.state != HexViewSelectionState::Inactive && self.selection.spec_end()
            < self.len() {
            self.file@.subrange(self.selection.spec_start() as int, self.selection.spec_end() + 1)
        } else {
            Seq::empty()
        }
    }

    /// The view with its window set to `val`, or to the nearest position
    /// between the first byte and the start of the last row. A locked view
    /// is left as it is.
    pub open spec fn placed(self, val: int) -> HexView {
        HexView {
            cur_pos: if self.pos_locked {
                self.cur_pos
            } else {
                clamped(val, last_row_start(self.len(), self.bytes_per_row as int)) as usize
            },
            ..self
        }
    }

    /// The view with its window moved by `delta` bytes.
    pub open spec fn moved(self, delta: int) -> HexView {
        self.placed(self.cur_pos + delta)
    }

    /// The symbol that encloses `pos`, if the view has a map that knows one.
    pub open spec fn symbol_at(&self, pos: usize) -> Option<(Symbol, usize)> {
        match self.map_file {
            Some(map) => floor_symbol(map.table@, pos),
            None => None,
        }
    }

    /// A view of `file` that starts at its first byte, sixteen bytes to a row,
    /// with one row for every sixteen bytes but no fewer than ten rows and no
    /// more than twenty-five. Nothing is selected, no map is attached, and
    /// both info lines are shown.
    pub open spec fn fresh(file: BinaryFile, id: usize) -> HexView {
        HexView {
            id,
            file,
            num_rows: initial_rows(file@.len() as int) as u32,
            bytes_per_row: DEFAULT_BYTES_PER_ROW,
            cur_pos: 0,
            pos_locked: false,
            selection: HexViewSelection::cleared(),
            cursor_pos: None,
            show_selection_info: true,
            show_cursor_info: true,
            map_file: None,
            closed: false,
        }
    }

    /// A fresh view of `file`.
    pub fn new(file: BinaryFile, id: usize) -> (r: Self)
        ensures
            r == Self::fresh(file, id),
            r.wf(),
    {
        let rows: usize = file.bytes.len() / DEFAULT_BYTES_PER_ROW;
        let num_rows: u32 = if rows < MIN_ROWS {
            10
        } else if rows > MAX_ROWS {
            25
        } else {
            rows as u32
        };
        assert(DEFAULT_BYTES_PER_ROW * num_rows <= usize::MAX) by {
            assert(num_rows <= 25);
        }
        HexView {
            id,
            file,
            num_rows,
            bytes_per_row: DEFAULT_BYTES_PER_ROW,
            cur_pos: 0,
            pos_locked: false,
            selection: HexViewSelection::new(),
            cursor_pos: None,
            show_selection_info: true,
            show_cursor_info: true,
            map_file: None,
            closed: false,
        }
    }

    /// The start of the last row.
    fn last_row(&self) -> (r: usize)
        requires
            self.bytes_per_row > 0,
        ensures
            r == last_row_start(self.len(), self.bytes_per_row as int),
            r <= self.len(),
    {
        let len: usize = self.file.bytes.len();
        let per_row: usize = self.bytes_per_row;
        proof {
            lemma_last_row_start_bounds(len as int, per_row as int);
        }
        (len / per_row) * per_row
    }

    /// Moves the window to `val`, or to the start of the last row if `val`
    /// lies behind it. A locked view stays where it is.
    pub fn set_cur_pos(&mut self, val: usize)
        requires
            old(self).bytes_per_row > 0,
        ensures
            *final(self) == old(self).placed(val as int),
    {
        if self.pos_locked {
            return ;
        }
        let last: usize = self.last_row();
        self.cur_pos = if val > last {
            last
        } else {
            val
        };
    }

    /// Moves the window by `delta` bytes, stopping at the first byte and at
    /// the start of the last row. A locked view stays where it is.
    pub fn adjust_cur_pos(&mut self, delta: isize)
        requires
            old(self).bytes_per_row > 0,
        ensures
            *final(self) == old(self).moved(delta as int),
    {
        if self.pos_locked {
            return ;
        }
        let last: usize = self.last_row();
        let moved: usize = shift_anchor(self.cur_pos, delta);
        self.cur_pos = if moved > last {
            last
        } else {
            moved
        };
    }

    /// Moves the window by `amount` bytes, towards the first byte if `back`
    /// is set and away from it otherwise, stopping as `adjust_cur_pos` does.
    pub fn shift_view(&mut self, amount: usize, back: bool)
        requires
            old(self).bytes_per_row > 0,
        ensures
            *final(self) == old(self).moved(
                if back {
                    -(amount as int)
                } else {
                    amount as int
                },
            ),
    {
        if self.pos_locked {
            return ;
        }
        let last: usize = self.last_row();
        self.cur_pos = if back {
            if amount >= self.cur_pos {
                0
            } else if self.cur_pos - amount > last {
                last
            } else {
                self.cur_pos - amount
            }
        } else {
            if self.cur_pos >= last || amount >= last - self.cur_pos {
                last
            } else {
                self.cur_pos + amount
            }
        };
    }

    /// Number of bytes that fit on the screen.
    pub fn bytes_per_screen(&self) -> (r: usize)
        requires
            self.bytes_per_row * self.num_rows <= usize::MAX,
        ensures
            r == self.bytes_per_row * self.num_rows,
    {
        self.bytes_per_row * (self.num_rows as usize)
    }

    /// The bytes on screen.
    pub fn get_cur_bytes(&self) -> (r: Vec<u8>)
        requires
            self.bytes_per_row * self.num_rows <= usize::MAX,
        ensures
            r@ == self.visible_bytes(),
    {
        let len: usize = self.file.bytes.len();
        if self.cur_pos >= len {
            return Vec::new();
        }
        let screen: usize = self.bytes_per_screen();
        let end: usize = if screen >= len - self.cur_pos {
            len
        } else {
            self.cur_pos + screen
        };
        copy_range(&self.file.bytes, self.cur_pos, end)
    }

    /// The selected bytes; none without a selection or when the selection
    /// reaches past the end of the file.
    pub fn get_selected_bytes(&self) -> (r: Vec<u8>)
        ensures
            r@ == self.selected_bytes(),
    {
        match self.selection.state {
            HexViewSelectionState::Inactive => Vec::new(),
            _ => {
                let end: usize = self.selection.end();
                if end < self.file.bytes.len() {
                    copy_range(&self.file.bytes, self.selection.start(), end + 1)
                } else {
                    Vec::new()
                }
            },
        }
    }

    /// Takes the outcome of reading the file again. After a failed read
    /// nothing changes and the error is returned. After a successful one the
    /// file holds the new bytes and the selection is fitted to their number:
    /// dropped if both anchors lie past the end, otherwise each anchor past
    /// the end is pulled back to the last byte.
    pub fn reload_file(&mut self, read: Result<Vec<u8>, IoError>) -> (r: Result<(), IoError>)
        ensures
            match read {
                Err(e) => r == Err::<(), IoError>(e) && *final(self) == *old(self),
                Ok(bytes) => r is Ok && *final(self) == (HexView {
                    file: BinaryFile { bytes, ..old(self).file },
                    selection: old(self).selection.refitted(bytes.len()),
                    ..*old(self)
                }),
            },
    {
        match read {
            Err(e) => Err(e),
            Ok(bytes) => {
                self.file.bytes = bytes;
                self.selection.refit(self.file.bytes.len());
                Ok(())
            },
        }
    }

    /// Applies a pointer event on the cell at `row_current_pos` to the
    /// selection, and notes the cell as the pointer's position if it is
    /// hovered.
    pub fn handle_selection(
        &mut self,
        event: PointerEvent,
        row_current_pos: usize,
        side: HexViewSelectionSide,
    )
        ensures
            *final(self) == (HexView {
                selection: selection_after_pointer(
                    old(self).selection,
                    event,
                    row_current_pos,
                    side,
                ),
                cursor_pos: if event.hovered {
                    Some(row_current_pos)
                } else {
                    old(self).cursor_pos
                },
                ..*old(self)
            }),
    {
        if event.hovered {
            if event.cursor_state == CursorState::Pressed {
                self.selection.begin(row_current_pos, side);
            }
            self.cursor_pos = Some(row_current_pos);
        }
        if event.inside {
            match event.cursor_state {
                CursorState::StillDown => {
                    if self.selection.state == HexViewSelectionState::Selecting {
                        self.selection.update(row_current_pos);
                    }
                },
                CursorState::Released => {
                    if self.selection.state == HexViewSelectionState::Selecting {
                        self.selection.finalize(row_current_pos);
                    }
                },
                _ => {},
            }
        }
        if event.middle_clicked {
            self.selection.clear();
        }
    }

    /// Looks `pos` up in the view's map.
    pub fn lookup(&self, pos: usize) -> (r: Option<(&SymbolEntry, usize)>)
        ensures
            hit_view(r) == self.symbol_at(pos),
    {
        match &self.map_file {
            Some(map) => map.get_entry(pos, if pos < usize::MAX {
                pos + 1
            } else {
                pos
            }),
            None => None,
        }
    }

    /// What to say about the selection: its ends, its length in bytes and the
    /// symbol that encloses its start. Nothing without a selection or when
    /// the selection reaches past the end of the file.
    pub fn selection_info(&self) -> (r: Option<SelectionInfo<'_>>)
        ensures
            r is Some <==> self.selection.state != HexViewSelectionState::Inactive
                && self.selection.spec_end() < self.len(),
            r is Some ==> {
                let info = r->Some_0;
                &&& info.start == self.selection.spec_start()
                &&& info.end == self.selection.spec_end()
                &&& info.length == info.end - info.start + 1
                &&& hit_view(info.symbol) == self.symbol_at(info.start)
            },
    {
        match self.selection.state {
            HexViewSelectionState::Inactive => None,
            _ => {
                let start: usize = self.selection.start();
                let end: usize = self.selection.end();
                if end < self.file.bytes.len() {
                    Some(
                        SelectionInfo {
                            start,
                            end,
                            length: end - start + 1,
                            symbol: self.lookup(start),
                        },
                    )
                } else {
                    None
                }
            },
        }
    }

    /// What to say about the pointer: the offset under it and the symbol that
    /// encloses that offset. Nothing while the pointer is over no byte.
    pub fn cursor_info(&self) -> (r: Option<CursorInfo<'_>>)
        ensures
            r is Some <==> self.cursor_pos is Some,
            r is Some ==> r->Some_0.pos == self.cursor_pos->Some_0 && hit_view(r->Some_0.symbol)
                == self.symbol_at(r->Some_0.pos),
    {
        match self.cursor_pos {
            Some(pos) => Some(CursorInfo { pos, symbol: self.lookup(pos) }),
            None => None,
        }
    }
}

} // verus!

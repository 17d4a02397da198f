//! Byte-range selection inside one file: two anchors, a drag state and the
//! column the drag started in.

use vstd::prelude::*;

verus! {

/// The two anchors of a selection, in the order they were set.
#[derive(Clone, Copy, Debug, PartialEq, Eq, Structural)]
pub struct HexViewSelectionRange {
    pub first: usize,
    pub second: usize,
}

impl Default for HexViewSelectionRange {
    fn default() -> (r: Self)
        ensures
            r.first == 0,
            r.second == 0,
    {
        HexViewSelectionRange { first: 0, second: 0 }
    }
}

/// Where a selection stands in its life: absent, being dragged, or complete.
#[derive(Clone, Copy, Debug, PartialEq, Eq, Structural)]
pub enum HexViewSelectionState {
    Inactive,
    Selecting,
    Selected,
}

impl Default for HexViewSelectionState {
    fn default() -> (r: Self)
        ensures
            r == HexViewSelectionState::Inactive,
    {
        HexViewSelectionState::Inactive
    }
}

/// The column in which a selection was started.
#[derive(Clone, Copy, Debug, PartialEq, Eq, Structural)]
pub enum HexViewSelectionSide {
    Hex,
    Ascii,
}

impl Default for HexViewSelectionSide {
    fn default() -> (r: Self)
        ensures
            r == HexViewSelectionSide::Hex,
    {
        HexViewSelectionSide::Hex
    }
}

/// A selection of bytes. While `state` is `Inactive` the anchors carry no meaning.
#[derive(Clone, Copy, Debug, PartialEq, Eq, Structural)]
pub struct HexViewSelection {
    pub range: HexViewSelectionRange,
    pub state: HexViewSelectionState,
    pub side: HexViewSelectionSide,
}

/// An anchor moved by `delta`, kept inside the range of `usize`.
pub open spec fn shifted_anchor(anchor: usize, delta: isize) -> usize {
    if anchor + delta < 0 {
        0usize
    } else if anchor + delta > usize::MAX {
        usize::MAX
    } else {
        (anchor + delta) as usize
    }
}

/// An anchor pulled back into a file of `len > 0` bytes.
pub open spec fn clamped_anchor(anchor: usize, len: usize) -> usize {
    if anchor >= len {
        (len - 1) as usize
    } else {
        anchor
    }
}

/// A shifted anchor is the sum where the sum is an offset, and zero where
/// the sum would lie below zero: it is never negative.
pub proof fn lemma_shifted_anchor_floor(anchor: usize, delta: isize)
    ensures
        0 <= shifted_anchor(anchor, delta),
        anchor + delta <= 0 ==> shifted_anchor(anchor, delta) == 0,
        0 <= anchor + delta <= usize::MAX ==> shifted_anchor(anchor, delta) == anchor + delta,
{
}

/// A selection in a file that shrank to `len` bytes: with both anchors past
/// the end it is dropped; with only one past the end that anchor is pulled
/// back to the last byte, and the other anchor and the state stay.
pub proof fn lemma_refit_clears_or_clamps(sel: HexViewSelection, len: usize)
    ensures
        sel.range.first >= len && sel.range.second >= len ==> sel.refitted(len)
            == HexViewSelection::cleared(),
        sel.range.first >= len && sel.range.second < len ==> sel.refitted(len) == (
        HexViewSelection {
            range: HexViewSelectionRange { first: (len - 1) as usize, second: sel.range.second },
            ..sel
        }),
        sel.range.first < len && sel.range.second >= len ==> sel.refitted(len) == (
        HexViewSelection {
            range: HexViewSelectionRange { first: sel.range.first, second: (len - 1) as usize },
            ..sel
        }),
        sel.range.first < len && sel.range.second < len ==> sel.refitted(len) == sel,
        !(sel.range.first >= len && sel.range.second >= len) ==> sel.refitted(len).spec_fits(len),
{
}

/// A selection mirrored onto a file lies inside that file or is none; it is
/// the selection itself exactly if that lies inside the file.
pub proof fn lemma_mirrored_fits(sel: HexViewSelection, len: usize)
    ensures
        sel.spec_fits(len) ==> sel.spec_mirrored(len) == sel,
        !sel.spec_fits(len) ==> sel.spec_mirrored(len) == HexViewSelection::cleared(),
        sel.spec_end() >= len ==> sel.spec_mirrored(len).state == HexViewSelectionState::Inactive,
{
}

/// Moves one anchor by `delta`, stopping at zero and at the largest offset.
pub fn shift_anchor(anchor: usize, delta: isize) -> (r: usize)
    ensures
        r == shifted_anchor(anchor, delta),
{
    if delta >= 0 {
        let up: usize = delta as usize;
        if anchor > usize::MAX - up {
            usize::MAX
        } else {
            anchor + up
        }
    } else {
        let down: usize = (-(delta + 1)) as usize;
        if anchor <= down {
            0
        } else {
            anchor - down - 1
        }
    }
}

impl HexViewSelection {
    /// The selection that selects nothing.
    pub open spec fn cleared() -> Self {
        HexViewSelection {
            range: HexViewSelectionRange { first: 0, second: 0 },
            state: HexViewSelectionState::Inactive,
            side: HexViewSelectionSide::Hex,
        }
    }

    /// The smaller anchor.
    pub open spec fn spec_start(&self) -> usize {
        if self.range.first <= self.range.second {
            self.range.first
        } else {
            self.range.second
        }
    }

    /// The larger anchor.
    pub open spec fn spec_end(&self) -> usize {
        if self.range.first <= self.range.second {
            self.range.second
        } else {
            self.range.first
        }
    }

    /// Whether `pos` lies inside an existing selection.
    pub open spec fn spec_contains(&self, pos: usize) -> bool {
        self.state != HexViewSelectionState::Inactive && self.spec_start() <= pos <= self.spec_end()
    }

    /// Whether both ends lie inside a file of `len` bytes.
    pub open spec fn spec_fits(&self, len: usize) -> bool {
        self.spec_start() < len && self.spec_end() < len
    }

    /// What a selection becomes when its file now holds `len` bytes: dropped
    /// when both anchors are past the end, otherwise each anchor is pulled
    /// back to the last byte on its own.
    pub open spec fn refitted(&self, len: usize) -> Self {
        if self.range.first >= len && self.range.second >= len {
            Self::cleared()
        } else {
            HexViewSelection {
                range: HexViewSelectionRange {
                    first: clamped_anchor(self.range.first, len),
                    second: clamped_anchor(self.range.second, len),
                },
                state: self.state,
                side: self.side,
            }
        }
    }

    /// What another file of `len` bytes shows for this selection: the same
    /// selection, or none when either end is past that file's end.
    pub open spec fn spec_mirrored(&self, len: usize) -> Self {
        if self.spec_fits(len) {
            *self
        } else {
            Self::cleared()
        }
    }

    /// A selection with nothing selected.
    pub fn new() -> (r: Self)
        ensures
            r == Self::cleared(),
    {
        HexViewSelection {
            range: HexViewSelectionRange { first: 0, second: 0 },
            state: HexViewSelectionState::Inactive,
            side: HexViewSelectionSide::Hex,
        }
    }

    /// The smaller anchor: where the selection starts.
    #[verifier::when_used_as_spec(spec_start)]
    pub fn start(&self) -> (r: usize)
        ensures
            r == self.spec_start(),
            r <= self.range.first,
            r <= self.range.second,
            r == self.range.first || r == self.range.second,
    {
        if self.range.first <= self.range.second {
            self.range.first
        } else {
            self.range.second
        }
    }

    /// The larger anchor: the last selected byte.
    #[verifier::when_used_as_spec(spec_end)]
    pub fn end(&self) -> (r: usize)
        ensures
            r == self.spec_end(),
            r >= self.range.first,
            r >= self.range.second,
            r == self.range.first || r == self.range.second,
    {
        if self.range.first <= self.range.second {
            self.range.second
        } else {
            self.range.first
        }
    }

    /// Whether `grid_pos` lies inside an existing selection, ends included.
    #[verifier::when_used_as_spec(spec_contains)]
    pub fn contains(&self, grid_pos: usize) -> (r: bool)
        ensures
            r == self.spec_contains(grid_pos),
            r == (self.state != HexViewSelectionState::Inactive && self.start() <= grid_pos
                && grid_pos <= self.end()),
    {
        self.state != HexViewSelectionState::Inactive && grid_pos >= self.start() && grid_pos
            <= self.end()
    }

    /// Starts a new one-byte selection at `grid_pos`, replacing any earlier one.
    pub fn begin(&mut self, grid_pos: usize, side: HexViewSelectionSide)
        ensures
            final(self).range.first == grid_pos,
            final(self).range.second == grid_pos,
            final(self).state == HexViewSelectionState::Selecting,
            final(self).side == side,
    {
        self.range.first = grid_pos;
        self.range.second = grid_pos;
        self.state = HexViewSelectionState::Selecting;
        self.side = side;
    }

    /// Moves the second anchor while a drag is under way; otherwise does nothing.
    pub fn update(&mut self, grid_pos: usize)
        ensures
            old(self).state == HexViewSelectionState::Selecting ==> *final(self) == (
            HexViewSelection {
                range: HexViewSelectionRange { first: old(self).range.first, second: grid_pos },
                ..*old(self)
            }),
            old(self).state != HexViewSelectionState::Selecting ==> *final(self) == *old(self),
    {
        if self.state == HexViewSelectionState::Selecting {
            self.range.second = grid_pos;
        }
    }

    /// Ends the drag at `grid_pos`.
    pub fn finalize(&mut self, grid_pos: usize)
        ensures
            final(self).range.first == old(self).range.first,
            final(self).range.second == grid_pos,
            final(self).state == HexViewSelectionState::Selected,
            final(self).side == old(self).side,
    {
        self.range.second = grid_pos;
        self.state = HexViewSelectionState::Selected;
    }

    /// Drops the selection: no offset is contained afterwards.
    pub fn clear(&mut self)
        ensures
            *final(self) == Self::cleared(),
            forall|pos: usize| !final(self).spec_contains(pos),
    {
        self.range.first = 0;
        self.range.second = 0;
        self.state = HexViewSelectionState::Inactive;
        self.side = HexViewSelectionSide::Hex;
    }

    /// Shifts both anchors by `delta`. An anchor that would pass zero stops at
    /// zero, one that would pass the largest offset stops there.
    pub fn adjust_cur_pos(&mut self, delta: isize)
        ensures
            final(self).range.first == shifted_anchor(old(self).range.first, delta),
            final(self).range.second == shifted_anchor(old(self).range.second, delta),
            final(self).state == old(self).state,
            final(self).side == old(self).side,
    {
        self.range.first = shift_anchor(self.range.first, delta);
        self.range.second = shift_anchor(self.range.second, delta);
    }

    /// Whether both ends lie inside a file of `len` bytes.
    #[verifier::when_used_as_spec(spec_fits)]
    pub fn fits(&self, len: usize) -> (r: bool)
        ensures
            r == self.spec_fits(len),
    {
        self.start() < len && self.end() < len
    }

    /// Adapts the selection to a file that now holds `len` bytes.
    pub fn refit(&mut self, len: usize)
        ensures
            *final(self) == old(self).refitted(len),
    {
        if self.range.first >= len && self.range.second >= len {
            self.clear();
        } else {
            if self.range.first >= len {
                self.range.first = len - 1;
            }
            if self.range.second >= len {
                self.range.second = len - 1;
            }
        }
    }

    /// The copy of this selection that a file of `len` bytes adopts.
    #[verifier::when_used_as_spec(spec_mirrored)]
    pub fn mirrored(&self, len: usize) -> (r: Self)
        ensures
            r == self.spec_mirrored(len),
    {
        if self.fits(len) {
            *self
        } else {
            Self::new()
        }
    }
}

impl Default for HexViewSelection {
    fn default() -> (r: Self)
        ensures
            r == HexViewSelection::cleared(),
    {
        HexViewSelection::new()
    }
}

} // verus!

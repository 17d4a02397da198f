//! The open views taken together: opening and closing files, the selection
//! that all views share, and what the keyboard does to them.

use crate::address::{parse_address, parsed_address};
use crate::bin_file::{BinaryFile, IoError};
use crate::diff::{files_of, is_diff_offset, strictly_increasing, DiffEngine};
use crate::hex_view::{CursorState, HexView};
use crate::navigation::{after_keys, arrows_move_selection, selection_after_arrows, KeyInput};
use crate::selection::{HexViewSelection, HexViewSelectionState};
use vstd::prelude::*;

verus! {

/// The text field in which an address to go to is typed, and the message
/// shown below it.
#[derive(Debug)]
pub struct GotoModal {
    pub value: String,
    pub status: String,
}

/// Everything that is open.
#[derive(Debug)]
pub struct Workspace {
    /// The id that the next view gets.
    pub next_hv_id: usize,
    pub hex_views: Vec<HexView>,
    pub diff_state: DiffEngine,
    pub goto_modal: GotoModal,
    /// Whether a selection made in one view is shown in all of them.
    pub mirror_selection: bool,
    /// The selection that all views mirror.
    pub global_selection: HexViewSelection,
    /// The view in which a selection is being dragged.
    pub selecting_hv: Option<usize>,
    /// The view in which a selection was last begun.
    pub last_selected_hv: Option<usize>,
}

/// Whether `i` is the index of the first view with the given id.
pub open spec fn is_first_with_id(views: Seq<HexView>, id: usize, i: int) -> bool {
    &&& 0 <= i < views.len()
    &&& views[i].id == id
    &&& forall|j: int| 0 <= j < i ==> views[j].id != id
}

/// Whether a view with the given id is closed.
pub open spec fn closes_id(views: Seq<HexView>, id: usize) -> bool {
    exists|i: int| 0 <= i < views.len() && views[i].closed && views[i].id == id
}

/// Whether any view is closed.
pub open spec fn any_closed(views: Seq<HexView>) -> bool {
    exists|i: int| 0 <= i < views.len() && views[i].closed
}

/// What a view shows of the shared selection: a view whose own selection is
/// the shared one keeps it; any other takes the shared one if both its ends
/// lie inside the view's file, and has no selection otherwise.
pub open spec fn mirrored_view(view: HexView, global: HexViewSelection) -> HexView {
    HexView {
        selection: if view.selection == global {
            view.selection
        } else {
            global.spec_mirrored(view.file@.len() as usize)
        },
        ..view
    }
}

/// Every view after mirroring the shared selection.
pub open spec fn mirrored_views(views: Seq<HexView>, global: HexViewSelection) -> Seq<HexView> {
    Seq::new(views.len(), |i: int| mirrored_view(views[i], global))
}

/// The views that are not closed, in their order.
pub open spec fn open_views(views: Seq<HexView>) -> Seq<HexView>
    decreases views.len(),
{
    if views.len() == 0 {
        Seq::empty()
    } else if views.last().closed {
        open_views(views.drop_last())
    } else {
        open_views(views.drop_last()).push(views.last())
    }
}

/// Every view that stays open was open before.
pub proof fn lemma_open_views_members(views: Seq<HexView>)
    ensures
        open_views(views).len() <= views.len(),
        forall|k: int|
            0 <= k < open_views(views).len() ==> !(#[trigger] open_views(views)[k]).closed
                && views.contains(open_views(views)[k]),
        !any_closed(views) ==> open_views(views) == views,
    decreases views.len(),
{
    if views.len() > 0 {
        let rest = views.drop_last();
        lemma_open_views_members(rest);
        assert forall|k: int| 0 <= k < open_views(views).len() implies !(#[trigger] open_views(
            views,
        )[k]).closed && views.contains(open_views(views)[k]) by {
            if k < open_views(rest).len() {
                let v = open_views(rest)[k];
                assert(rest.contains(v));
                let i = choose|i: int| 0 <= i < rest.len() && rest[i] == v;
                assert(views[i] == v);
            } else {
                assert(views[views.len() - 1] == views.last());
            }
        }
        if !any_closed(views) {
            assert(!views[views.len() - 1].closed);
            assert forall|i: int| 0 <= i < rest.len() implies !rest[i].closed by {
                assert(rest[i] == views[i]);
            }
            assert(rest.push(views.last()) == views);
        }
    }
}

/// A selection after the pointer button was let go: a drag is complete.
pub open spec fn released(sel: HexViewSelection) -> HexViewSelection {
    if sel.state == HexViewSelectionState::Selecting {
        HexViewSelection { state: HexViewSelectionState::Selected, ..sel }
    } else {
        sel
    }
}

impl Workspace {
    /// Every view is well formed.
    pub open spec fn wf(&self) -> bool {
        forall|i: int| 0 <= i < self.hex_views@.len() ==> (#[trigger] self.hex_views@[i]).wf()
    }

    /// An empty workspace: no views, no differences, mirroring switched on.
    pub fn new() -> (r: Self)
        ensures
            r.wf(),
            r.next_hv_id == 0,
            r.hex_views@.len() == 0,
            r.diff_state@.len() == 0,
            !r.diff_state.spec_enabled(),
            r.goto_modal.value@.len() == 0,
            r.goto_modal.status@.len() == 0,
            r.mirror_selection,
            r.global_selection == HexViewSelection::cleared(),
            r.selecting_hv is None,
            r.last_selected_hv is None,
    {
        Workspace {
            next_hv_id: 0,
            hex_views: Vec::new(),
            diff_state: DiffEngine::new(),
            goto_modal: GotoModal { value: String::new(), status: String::new() },
            mirror_selection: true,
            global_selection: HexViewSelection::new(),
            selecting_hv: None,
            last_selected_hv: None,
        }
    }

    /// Takes the outcome of reading the file at `path`. A successful read
    /// adds a fresh view of the file behind the others, under the next free
    /// id, and gives its index; a failed one changes nothing and gives the
    /// read's error.
    pub fn open_file(&mut self, path: String, read: Result<Vec<u8>, IoError>) -> (r: Result<
        usize,
        IoError,
    >)
        requires
            old(self).wf(),
            old(self).next_hv_id < usize::MAX,
        ensures
            final(self).wf(),
            final(self).diff_state == old(self).diff_state,
            final(self).goto_modal == old(self).goto_modal,
            final(self).mirror_selection == old(self).mirror_selection,
            final(self).global_selection == old(self).global_selection,
            final(self).selecting_hv == old(self).selecting_hv,
            final(self).last_selected_hv == old(self).last_selected_hv,
            match read {
                Err(e) => r == Err::<usize, IoError>(e) && final(self).hex_views@ == old(self).hex_views@ && final(self).next_hv_id == old(self).next_hv_id,
                Ok(bytes) => r == Ok::<usize, IoError>(old(self).hex_views@.len() as usize)
                    && final(self).hex_views@ == old(self).hex_views@.push(
                    HexView::fresh(
                        BinaryFile { path, bytes, modified: false },
                        old(self).next_hv_id,
                    ),
                ) && final(self).next_hv_id == old(self).next_hv_id + 1,
            },
    {
        match BinaryFile::load(path, read) {
            Err(e) => Err(e),
            Ok(file) => {
                let index: usize = self.hex_views.len();
                let view = HexView::new(file, self.next_hv_id);
                self.hex_views.push(view);
                self.next_hv_id = self.next_hv_id + 1;
                Ok(index)
            },
        }
    }

    /// The index of the first view with the given id.
    pub fn get_hex_view_by_id(&self, id: usize) -> (r: Option<usize>)
        ensures
            match r {
                Some(i) => i < self.hex_views@.len() && self.hex_views@[i as int].id == id
                    && forall|j: int| 0 <= j < i ==> self.hex_views@[j].id != id,
                None => forall|j: int| 0 <= j < self.hex_views@.len() ==> self.hex_views@[j].id != id,
            },
    {
        let mut i: usize = 0;
        while i < self.hex_views.len()
            invariant
                i <= self.hex_views@.len(),
                forall|j: int| 0 <= j < i ==> self.hex_views@[j].id != id,
            decreases self.hex_views@.len() - i,
        {
            if self.hex_views[i].id == id {
                return Some(i);
            }
            i += 1;
        }
        None
    }

    /// Compares the files of the open views anew.
    pub fn recalculate_diffs(&mut self)
        ensures
            final(self).hex_views == old(self).hex_views,
            final(self).next_hv_id == old(self).next_hv_id,
            final(self).goto_modal == old(self).goto_modal,
            final(self).mirror_selection == old(self).mirror_selection,
            final(self).global_selection == old(self).global_selection,
            final(self).selecting_hv == old(self).selecting_hv,
            final(self).last_selected_hv == old(self).last_selected_hv,
            final(self).diff_state.spec_enabled() == old(self).diff_state.spec_enabled(),
            strictly_increasing(final(self).diff_state@),
            forall|offset: usize|
                final(self).diff_state@.contains(offset) <==> is_diff_offset(
                    files_of(old(self).hex_views@),
                    offset as int,
                ),
    {
        self.diff_state.recalculate(&self.hex_views);
    }

    /// Whether the view at `index` may change its selection during this step:
    /// while a selection is dragged in one view, only that view may.
    pub fn can_selection_change(&self, index: usize) -> (r: bool)
        requires
            index < self.hex_views@.len(),
        ensures
            r == match self.selecting_hv {
                Some(id) => id == self.hex_views@[index as int].id,
                None => true,
            },
    {
        match self.selecting_hv {
            Some(id) => id == self.hex_views[index].id,
            None => true,
        }
    }

    /// Takes note of what a step did to the selection of the view at `index`,
    /// which held `before` when the step began. A changed selection becomes
    /// the shared one; if it is being dragged, the view becomes the one that
    /// selects and the one last selected in, otherwise no view selects any
    /// more. A drag in the view ends if the button was let go.
    pub fn note_selection(&mut self, index: usize, before: HexViewSelection, cursor_state: CursorState)
        requires
            index < old(self).hex_views@.len(),
        ensures
            old(self).wf() ==> final(self).wf(),
            final(self).next_hv_id == old(self).next_hv_id,
            final(self).diff_state == old(self).diff_state,
            final(self).goto_modal == old(self).goto_modal,
            final(self).mirror_selection == old(self).mirror_selection,
            final(self).hex_views@ == old(self).hex_views@.update(
                index as int,
                HexView {
                    selection: if cursor_state == CursorState::Released {
                        released(old(self).hex_views@[index as int].selection)
                    } else {
                        old(self).hex_views@[index as int].selection
                    },
                    ..old(self).hex_views@[index as int]
                },
            ),
            ({
                let view = old(self).hex_views@[index as int];
                if view.selection != before {
                    &&& final(self).global_selection == view.selection
                    &&& final(self).selecting_hv == if view.selection.state
                        == HexViewSelectionState::Selecting {
                        Some(view.id)
                    } else {
                        None
                    }
                    &&& final(self).last_selected_hv == if view.selection.state
                        == HexViewSelectionState::Selecting {
                        Some(view.id)
                    } else {
                        old(self).last_selected_hv
                    }
                } else {
                    &&& final(self).global_selection == old(self).global_selection
                    &&& final(self).selecting_hv == old(self).selecting_hv
                    &&& final(self).last_selected_hv == old(self).last_selected_hv
                }
            }),
    {
        let selection = self.hex_views[index].selection;
        let id: usize = self.hex_views[index].id;
        if selection != before {
            match selection.state {
                HexViewSelectionState::Selecting => {
                    self.selecting_hv = Some(id);
                    self.last_selected_hv = Some(id);
                },
                _ => {
                    self.selecting_hv = None;
                },
            }
            self.global_selection = selection;
        }
        if cursor_state == CursorState::Released {
            if selection.state == HexViewSelectionState::Selecting {
                self.hex_views[index].selection.state = HexViewSelectionState::Selected;
            }
        }
        assert(self.hex_views@ =~= old(self).hex_views@.update(
            index as int,
            HexView {
                selection: if cursor_state == CursorState::Released {
                    released(old(self).hex_views@[index as int].selection)
                } else {
                    old(self).hex_views@[index as int].selection
                },
                ..old(self).hex_views@[index as int]
            },
        ));
        proof {
            if old(self).wf() {
                assert forall|i: int| 0 <= i < self.hex_views@.len() implies (
                #[trigger] self.hex_views@[i]).wf() by {
                    assert(old(self).hex_views@[i].wf());
                }
            }
        }
    }

    /// Ends a drag of the shared selection when the button was let go: no
    /// view selects any more and the shared selection is complete.
    pub fn release(&mut self, cursor_state: CursorState)
        ensures
            final(self).next_hv_id == old(self).next_hv_id,
            final(self).hex_views == old(self).hex_views,
            final(self).diff_state == old(self).diff_state,
            final(self).goto_modal == old(self).goto_modal,
            final(self).mirror_selection == old(self).mirror_selection,
            final(self).last_selected_hv == old(self).last_selected_hv,
            final(self).selecting_hv == if cursor_state == CursorState::Released {
                None
            } else {
                old(self).selecting_hv
            },
            final(self).global_selection == if cursor_state == CursorState::Released {
                released(old(self).global_selection)
            } else {
                old(self).global_selection
            },
    {
        if cursor_state == CursorState::Released {
            self.selecting_hv = None;
            if self.global_selection.state == HexViewSelectionState::Selecting {
                self.global_selection.state = HexViewSelectionState::Selected;
            }
        }
    }

    /// Shows the shared selection in every view, each view checking it
    /// against the length of its own file.
    pub fn mirror(&mut self)
        ensures
            final(self).hex_views@ == mirrored_views(
                old(self).hex_views@,
                old(self).global_selection,
            ),
            final(self).next_hv_id == old(self).next_hv_id,
            final(self).diff_state == old(self).diff_state,
            final(self).goto_modal == old(self).goto_modal,
            final(self).mirror_selection == old(self).mirror_selection,
            final(self).global_selection == old(self).global_selection,
            final(self).selecting_hv == old(self).selecting_hv,
            final(self).last_selected_hv == old(self).last_selected_hv,
            old(self).wf() ==> final(self).wf(),
    {
        let global = self.global_selection;
        let mut i: usize = 0;
        while i < self.hex_views.len()
            invariant
                i <= self.hex_views@.len(),
                self.hex_views@.len() == old(self).hex_views@.len(),
                global == old(self).global_selection,
                forall|j: int|
                    0 <= j < i ==> self.hex_views@[j] == mirrored_view(
                        old(self).hex_views@[j],
                        global,
                    ),
                forall|j: int|
                    i <= j < self.hex_views@.len() ==> self.hex_views@[j] == old(self).hex_views@[j],
                self.next_hv_id == old(self).next_hv_id,
                self.diff_state == old(self).diff_state,
                self.goto_modal == old(self).goto_modal,
                self.mirror_selection == old(self).mirror_selection,
                self.global_selection == old(self).global_selection,
                self.selecting_hv == old(self).selecting_hv,
                self.last_selected_hv == old(self).last_selected_hv,
            decreases self.hex_views@.len() - i,
        {
            if self.hex_views[i].selection != global {
                let len: usize = self.hex_views[i].file.bytes.len();
                self.hex_views[i].selection = global.mirrored(len);
            }
            i += 1;
        }
        assert(self.hex_views@ =~= mirrored_views(old(self).hex_views@, global));
    }

    /// Removes the closed views and tells whether there were any. The view
    /// last selected in is forgotten if it was among them.
    pub fn remove_closed(&mut self) -> (removed: bool)
        ensures
            final(self).hex_views@ == open_views(old(self).hex_views@),
            removed == any_closed(old(self).hex_views@),
            final(self).last_selected_hv == match old(self).last_selected_hv {
                Some(id) => if closes_id(old(self).hex_views@, id) {
                    None
                } else {
                    Some(id)
                },
                None => None,
            },
            final(self).next_hv_id == old(self).next_hv_id,
            final(self).diff_state == old(self).diff_state,
            final(self).goto_modal == old(self).goto_modal,
            final(self).mirror_selection == old(self).mirror_selection,
            final(self).global_selection == old(self).global_selection,
            final(self).selecting_hv == old(self).selecting_hv,
            old(self).wf() ==> final(self).wf(),
    {
        let ghost views = self.hex_views@;
        let last_selected = self.last_selected_hv;
        let mut all: Vec<HexView> = Vec::new();
        std::mem::swap(&mut self.hex_views, &mut all);
        let mut removed = false;
        let mut forget = false;
        for view in it: all
            invariant
                it.seq() == views,
                self.hex_views@ == open_views(views.take(it.index() as int)),
                removed == any_closed(views.take(it.index() as int)),
                forget == match last_selected {
                    Some(id) => closes_id(views.take(it.index() as int), id),
                    None => false,
                },
                self.last_selected_hv == last_selected,
                self.next_hv_id == old(self).next_hv_id,
                self.diff_state == old(self).diff_state,
                self.goto_modal == old(self).goto_modal,
                self.mirror_selection == old(self).mirror_selection,
                self.global_selection == old(self).global_selection,
                self.selecting_hv == old(self).selecting_hv,
        {
            let ghost k = it.index() as int;
            let ghost seen = views.take(k);
            let ghost next = views.take(k + 1);
            proof {
                assert(next.drop_last() == seen);
                assert(next.last() == view);
                assert forall|i: int| 0 <= i < seen.len() implies seen[i] == next[i] by {}
                if any_closed(seen) {
                    let i = choose|i: int| 0 <= i < seen.len() && seen[i].closed;
                    assert(next[i].closed);
                }
                if any_closed(next) && !view.closed {
                    let i = choose|i: int| 0 <= i < next.len() && next[i].closed;
                    assert(seen[i].closed);
                }
                if view.closed {
                    assert(next[k].closed);
                }
                match last_selected {
                    Some(id) => {
                        if closes_id(seen, id) {
                            let i = choose|i: int|
                                0 <= i < seen.len() && seen[i].closed && seen[i].id == id;
                            assert(next[i].closed && next[i].id == id);
                        }
                        if closes_id(next, id) && !(view.closed && view.id == id) {
                            let i = choose|i: int|
                                0 <= i < next.len() && next[i].closed && next[i].id == id;
                            assert(seen[i].closed && seen[i].id == id);
                        }
                        if view.closed && view.id == id {
                            assert(next[k].closed && next[k].id == id);
                        }
                    },
                    None => {},
                }
            }
            if view.closed {
                removed = true;
                match last_selected {
                    Some(id) => {
                        if view.id == id {
                            forget = true;
                        }
                    },
                    None => {},
                }
            } else {
                self.hex_views.push(view);
            }
        }
        proof {
            assert(views.take(views.len() as int) == views);
            lemma_open_views_members(views);
            if old(self).wf() {
                assert forall|i: int| 0 <= i < self.hex_views@.len() implies (
                #[trigger] self.hex_views@[i]).wf() by {
                    let v = self.hex_views@[i];
                    assert(views.contains(v));
                    let j = choose|j: int| 0 <= j < views.len() && views[j] == v;
                    assert(old(self).hex_views@[j].wf());
                }
            }
        }
        if forget {
            self.last_selected_hv = None;
        }
        removed
    }

    /// Ends a step: ends a drag if the button was let go, mirrors the shared
    /// selection if mirroring is switched on, removes the closed views, and
    /// drops the shared selection when no view is left. Tells whether a view
    /// was removed, after which the differences are out of date.
    pub fn finish_step(&mut self, cursor_state: CursorState) -> (removed: bool)
        ensures
            final(self).hex_views@ == open_views(
                if old(self).mirror_selection {
                    mirrored_views(
                        old(self).hex_views@,
                        if cursor_state == CursorState::Released {
                            released(old(self).global_selection)
                        } else {
                            old(self).global_selection
                        },
                    )
                } else {
                    old(self).hex_views@
                },
            ),
            removed == any_closed(old(self).hex_views@),
            final(self).global_selection == if final(self).hex_views@.len() == 0 {
                HexViewSelection::cleared()
            } else if cursor_state == CursorState::Released {
                released(old(self).global_selection)
            } else {
                old(self).global_selection
            },
            final(self).selecting_hv == if cursor_state == CursorState::Released {
                None
            } else {
                old(self).selecting_hv
            },
            final(self).last_selected_hv == match old(self).last_selected_hv {
                Some(id) => if closes_id(old(self).hex_views@, id) {
                    None
                } else {
                    Some(id)
                },
                None => None,
            },
            final(self).next_hv_id == old(self).next_hv_id,
            final(self).diff_state == old(self).diff_state,
            final(self).goto_modal == old(self).goto_modal,
            final(self).mirror_selection == old(self).mirror_selection,
            old(self).wf() ==> final(self).wf(),
    {
        self.release(cursor_state);
        if self.mirror_selection {
            let ghost before = self.hex_views@;
            self.mirror();
            proof {
                let after = self.hex_views@;
                assert forall|i: int| 0 <= i < before.len() implies (#[trigger] after[i]).closed
                    == before[i].closed && after[i].id == before[i].id by {}
                assert(any_closed(after) == any_closed(before)) by {
                    if any_closed(after) {
                        let i = choose|i: int| 0 <= i < after.len() && after[i].closed;
                        assert(before[i].closed);
                    }
                    if any_closed(before) {
                        let i = choose|i: int| 0 <= i < before.len() && before[i].closed;
                        assert(after[i].closed);
                    }
                }
                match self.last_selected_hv {
                    Some(id) => {
                        assert(closes_id(after, id) == closes_id(before, id)) by {
                            if closes_id(after, id) {
                                let i = choose|i: int|
                                    0 <= i < after.len() && after[i].closed && after[i].id == id;
                                assert(before[i].closed && before[i].id == id);
                            }
                            if closes_id(before, id) {
                                let i = choose|i: int|
                                    0 <= i < before.len() && before[i].closed && before[i].id
                                        == id;
                                assert(after[i].closed && after[i].id == id);
                            }
                        }
                    },
                    None => {},
                }
            }
        }
        let removed = self.remove_closed();
        if self.hex_views.len() == 0 {
            self.global_selection.clear();
        }
        removed
    }

    /// Moves the selection of the view last selected in as the arrow keys
    /// say; a moved selection becomes the shared one. Nothing happens while
    /// no view was selected in or the view is gone.
    pub fn move_last_selection(&mut self, keys: KeyInput)
        ensures
            final(self).hex_views@.len() == old(self).hex_views@.len(),
            final(self).next_hv_id == old(self).next_hv_id,
            final(self).diff_state == old(self).diff_state,
            final(self).goto_modal == old(self).goto_modal,
            final(self).mirror_selection == old(self).mirror_selection,
            final(self).selecting_hv == old(self).selecting_hv,
            final(self).last_selected_hv == old(self).last_selected_hv,
            old(self).wf() ==> final(self).wf(),
            match old(self).last_selected_hv {
                None => final(self).hex_views@ == old(self).hex_views@ && final(self).global_selection == old(self).global_selection,
                Some(id) => {
                    &&& (forall|j: int|
                        0 <= j < old(self).hex_views@.len() ==> old(self).hex_views@[j].id != id)
                        ==> final(self).hex_views@ == old(self).hex_views@ && final(self).global_selection == old(self).global_selection
                    &&& forall|i: int|
                        is_first_with_id(old(self).hex_views@, id, i) ==> {
                            let view = old(self).hex_views@[i];
                            let moved = selection_after_arrows(
                                view.selection,
                                keys,
                                view.len(),
                                view.bytes_per_row as int,
                            );
                            &&& final(self).hex_views@ == old(self).hex_views@.update(
                                i,
                                HexView { selection: moved, ..view },
                            )
                            &&& final(self).global_selection == if arrows_move_selection(
                                view.selection,
                                keys,
                                view.len(),
                                view.bytes_per_row as int,
                            ) {
                                moved
                            } else {
                                old(self).global_selection
                            }
                        }
                },
            },
    {
        match self.last_selected_hv {
            Some(id) => {
                match self.get_hex_view_by_id(id) {
                    Some(index) => {
                        let ghost view = self.hex_views@[index as int];
                        let changed = self.hex_views[index].move_selection(keys);
                        if changed {
                            self.global_selection = self.hex_views[index].selection;
                        }
                        proof {
                            assert(self.hex_views@ =~= old(self).hex_views@.update(
                                index as int,
                                self.hex_views@[index as int],
                            ));
                            assert forall|i: int|
                                is_first_with_id(old(self).hex_views@, id, i) implies i
                                == index by {
                                if i < index {
                                    assert(old(self).hex_views@[i].id != id);
                                }
                            }
                            if old(self).wf() {
                                assert forall|i: int| 0 <= i < self.hex_views@.len() implies (
                                #[trigger] self.hex_views@[i]).wf() by {
                                    assert(old(self).hex_views@[i].wf());
                                }
                            }
                        }
                    },
                    None => {},
                }
            },
            None => {},
        }
    }

    /// Applies the keys of one step and a turn of the wheel by `scroll_rows`
    /// rows to the window of every view.
    pub fn move_views(&mut self, keys: KeyInput, scroll_rows: isize)
        requires
            old(self).wf(),
        ensures
            final(self).wf(),
            final(self).hex_views@.len() == old(self).hex_views@.len(),
            forall|i: int|
                0 <= i < old(self).hex_views@.len() ==> #[trigger] final(self).hex_views@[i]
                    == after_keys(
                    old(self).hex_views@[i],
                    keys,
                    old(self).diff_state.spec_enabled(),
                    old(self).diff_state@,
                    scroll_rows as int,
                ),
            final(self).next_hv_id == old(self).next_hv_id,
            final(self).diff_state == old(self).diff_state,
            final(self).goto_modal == old(self).goto_modal,
            final(self).mirror_selection == old(self).mirror_selection,
            final(self).global_selection == old(self).global_selection,
            final(self).selecting_hv == old(self).selecting_hv,
            final(self).last_selected_hv == old(self).last_selected_hv,
    {
        let mut i: usize = 0;
        while i < self.hex_views.len()
            invariant
                i <= self.hex_views@.len(),
                self.hex_views@.len() == old(self).hex_views@.len(),
                old(self).wf(),
                forall|j: int| 0 <= j < i ==> (#[trigger] self.hex_views@[j]).wf(),
                forall|j: int|
                    0 <= j < i ==> #[trigger] self.hex_views@[j] == after_keys(
                        old(self).hex_views@[j],
                        keys,
                        old(self).diff_state.spec_enabled(),
                        old(self).diff_state@,
                        scroll_rows as int,
                    ),
                forall|j: int|
                    i <= j < self.hex_views@.len() ==> #[trigger] self.hex_views@[j] == old(self).hex_views@[j],
                self.next_hv_id == old(self).next_hv_id,
                self.diff_state == old(self).diff_state,
                self.goto_modal == old(self).goto_modal,
                self.mirror_selection == old(self).mirror_selection,
                self.global_selection == old(self).global_selection,
                self.selecting_hv == old(self).selecting_hv,
                self.last_selected_hv == old(self).last_selected_hv,
            decreases self.hex_views@.len() - i,
        {
            assert(old(self).hex_views@[i as int].wf());
            self.hex_views[i].handle_view_keys(keys, &self.diff_state, scroll_rows);
            i += 1;
        }
    }

    /// Applies the keys of one step and a turn of the wheel. With shift held
    /// the arrow keys move the selection, as `move_last_selection` says;
    /// without, keys and wheel move the windows, as `move_views` says.
    pub fn handle_hex_view_input(&mut self, keys: KeyInput, scroll_rows: isize)
        requires
            old(self).wf(),
        ensures
            final(self).wf(),
            final(self).hex_views@.len() == old(self).hex_views@.len(),
            final(self).next_hv_id == old(self).next_hv_id,
            final(self).diff_state == old(self).diff_state,
            final(self).goto_modal == old(self).goto_modal,
            final(self).mirror_selection == old(self).mirror_selection,
            final(self).selecting_hv == old(self).selecting_hv,
            final(self).last_selected_hv == old(self).last_selected_hv,
            !keys.shift ==> final(self).global_selection == old(self).global_selection
                && forall|i: int|
                0 <= i < old(self).hex_views@.len() ==> #[trigger] final(self).hex_views@[i]
                    == after_keys(
                    old(self).hex_views@[i],
                    keys,
                    old(self).diff_state.spec_enabled(),
                    old(self).diff_state@,
                    scroll_rows as int,
                ),
            keys.shift ==> match old(self).last_selected_hv {
                None => final(self).hex_views@ == old(self).hex_views@ && final(self).global_selection == old(self).global_selection,
                Some(id) => {
                    &&& (forall|j: int|
                        0 <= j < old(self).hex_views@.len() ==> old(self).hex_views@[j].id != id)
                        ==> final(self).hex_views@ == old(self).hex_views@ && final(self).global_selection == old(self).global_selection
                    &&& forall|i: int|
                        is_first_with_id(old(self).hex_views@, id, i) ==> {
                            let view = old(self).hex_views@[i];
                            let moved = selection_after_arrows(
                                view.selection,
                                keys,
                                view.len(),
                                view.bytes_per_row as int,
                            );
                            &&& final(self).hex_views@ == old(self).hex_views@.update(
                                i,
                                HexView { selection: moved, ..view },
                            )
                            &&& final(self).global_selection == if arrows_move_selection(
                                view.selection,
                                keys,
                                view.len(),
                                view.bytes_per_row as int,
                            ) {
                                moved
                            } else {
                                old(self).global_selection
                            }
                        }
                },
            },
    {
        if keys.shift {
            self.move_last_selection(keys);
        } else {
            self.move_views(keys, scroll_rows);
        }
    }

    /// Takes the outcome of reading the file of the view at `index` again, as
    /// `HexView::reload_file` does. After a successful read the differences
    /// are out of date.
    pub fn reload_view(&mut self, index: usize, read: Result<Vec<u8>, IoError>) -> (r: Result<
        (),
        IoError,
    >)
        requires
            index < old(self).hex_views@.len(),
        ensures
            final(self).next_hv_id == old(self).next_hv_id,
            final(self).diff_state == old(self).diff_state,
            final(self).goto_modal == old(self).goto_modal,
            final(self).mirror_selection == old(self).mirror_selection,
            final(self).global_selection == old(self).global_selection,
            final(self).selecting_hv == old(self).selecting_hv,
            final(self).last_selected_hv == old(self).last_selected_hv,
            old(self).wf() ==> final(self).wf(),
            match read {
                Err(e) => r == Err::<(), IoError>(e) && final(self).hex_views@ == old(self).hex_views@,
                Ok(bytes) => r is Ok && final(self).hex_views@ == old(self).hex_views@.update(
                    index as int,
                    HexView {
                        file: BinaryFile { bytes, ..old(self).hex_views@[index as int].file },
                        selection: old(self).hex_views@[index as int].selection.refitted(
                            bytes.len(),
                        ),
                        ..old(self).hex_views@[index as int]
                    },
                ),
            },
    {
        let r = self.hex_views[index].reload_file(read);
        assert(self.hex_views@ =~= old(self).hex_views@.update(
            index as int,
            self.hex_views@[index as int],
        ));
        proof {
            if old(self).wf() {
                assert forall|i: int| 0 <= i < self.hex_views@.len() implies (
                #[trigger] self.hex_views@[i]).wf() by {
                    assert(old(self).hex_views@[i].wf());
                }
            }
        }
        r
    }

    /// Opens the field for an address to go to, holding the start of a
    /// hexadecimal number.
    pub fn open_goto(&mut self)
        ensures
            final(self).goto_modal.value@ == "0x"@,
            final(self).goto_modal.status == old(self).goto_modal.status,
            final(self).next_hv_id == old(self).next_hv_id,
            final(self).hex_views == old(self).hex_views,
            final(self).diff_state == old(self).diff_state,
            final(self).mirror_selection == old(self).mirror_selection,
            final(self).global_selection == old(self).global_selection,
            final(self).selecting_hv == old(self).selecting_hv,
            final(self).last_selected_hv == old(self).last_selected_hv,
    {
        self.goto_modal.value = "0x".to_owned();
    }

    /// Closes the field without going anywhere; the message is taken away.
    pub fn cancel_goto(&mut self)
        ensures
            final(self).goto_modal.status@ == Seq::<char>::empty(),
            final(self).goto_modal.value == old(self).goto_modal.value,
            final(self).next_hv_id == old(self).next_hv_id,
            final(self).hex_views == old(self).hex_views,
            final(self).diff_state == old(self).diff_state,
            final(self).mirror_selection == old(self).mirror_selection,
            final(self).global_selection == old(self).global_selection,
            final(self).selecting_hv == old(self).selecting_hv,
            final(self).last_selected_hv == old(self).last_selected_hv,
    {
        self.goto_modal.status = String::new();
    }

    /// Goes to what the typed text was read as. An address moves the window
    /// of every view to it, as `HexView::set_cur_pos` does, and the field can
    /// be closed. Without an address the views stay, the field is reset and a
    /// message says that the address is invalid. Tells whether it went.
    pub fn apply_goto(&mut self, parsed: Option<usize>) -> (done: bool)
        requires
            old(self).wf(),
        ensures
            done == parsed is Some,
            final(self).wf(),
            final(self).hex_views@.len() == old(self).hex_views@.len(),
            final(self).next_hv_id == old(self).next_hv_id,
            final(self).diff_state == old(self).diff_state,
            final(self).mirror_selection == old(self).mirror_selection,
            final(self).global_selection == old(self).global_selection,
            final(self).selecting_hv == old(self).selecting_hv,
            final(self).last_selected_hv == old(self).last_selected_hv,
            match parsed {
                Some(pos) => final(self).goto_modal == old(self).goto_modal && forall|i: int|
                    0 <= i < old(self).hex_views@.len() ==> #[trigger] final(self).hex_views@[i]
                        == old(self).hex_views@[i].placed(pos as int),
                None => final(self).hex_views@ == old(self).hex_views@ && final(self).goto_modal.status@ == "Invalid address"@ && final(self).goto_modal.value@
                    == "0x"@,
            },
    {
        match parsed {
            Some(pos) => {
                let mut i: usize = 0;
                while i < self.hex_views.len()
                    invariant
                        i <= self.hex_views@.len(),
                        self.hex_views@.len() == old(self).hex_views@.len(),
                        old(self).wf(),
                        forall|j: int|
                            0 <= j < i ==> #[trigger] self.hex_views@[j] == old(self).hex_views@[j].placed(pos as int),
                        forall|j: int|
                            i <= j < self.hex_views@.len() ==> #[trigger] self.hex_views@[j]
                                == old(self).hex_views@[j],
                        self.next_hv_id == old(self).next_hv_id,
                        self.diff_state == old(self).diff_state,
                        self.goto_modal == old(self).goto_modal,
                        self.mirror_selection == old(self).mirror_selection,
                        self.global_selection == old(self).global_selection,
                        self.selecting_hv == old(self).selecting_hv,
                        self.last_selected_hv == old(self).last_selected_hv,
                    decreases self.hex_views@.len() - i,
                {
                    assert(old(self).hex_views@[i as int].wf());
                    self.hex_views[i].set_cur_pos(pos);
                    i += 1;
                }
                assert(self.wf()) by {
                    assert forall|j: int| 0 <= j < self.hex_views@.len() implies (
                    #[trigger] self.hex_views@[j]).wf() by {
                        assert(old(self).hex_views@[j].wf());
                    }
                }
                true
            },
            None => {
                self.goto_modal.status = "Invalid address".to_owned();
                self.goto_modal.value = "0x".to_owned();
                false
            },
        }
    }

    /// Reads the typed text as an address and goes there.
    pub fn goto_address(&mut self) -> (done: bool)
        requires
            old(self).wf(),
        ensures
            done == parsed_address(old(self).goto_modal.value@) is Some,
            final(self).wf(),
            final(self).hex_views@.len() == old(self).hex_views@.len(),
            final(self).next_hv_id == old(self).next_hv_id,
            final(self).diff_state == old(self).diff_state,
            final(self).mirror_selection == old(self).mirror_selection,
            final(self).global_selection == old(self).global_selection,
            final(self).selecting_hv == old(self).selecting_hv,
            final(self).last_selected_hv == old(self).last_selected_hv,
            match parsed_address(old(self).goto_modal.value@) {
                Some(pos) => final(self).goto_modal == old(self).goto_modal && forall|i: int|
                    0 <= i < old(self).hex_views@.len() ==> #[trigger] final(self).hex_views@[i]
                        == old(self).hex_views@[i].placed(pos as int),
                None => final(self).hex_views@ == old(self).hex_views@ && final(self).goto_modal.status@ == "Invalid address"@ && final(self).goto_modal.value@
                    == "0x"@,
            },
    {
        let parsed = parse_address(self.goto_modal.value.as_str());
        self.apply_goto(parsed)
    }
}

} // verus!

use bdiff::selection::shift_anchor;
use bdiff::{
    HexViewSelection, HexViewSelectionRange, HexViewSelectionSide, HexViewSelectionState,
};

fn selection(first: usize, second: usize, state: HexViewSelectionState) -> HexViewSelection {
    HexViewSelection {
        range: HexViewSelectionRange { first, second },
        state,
        side: HexViewSelectionSide::Ascii,
    }
}

#[test]
fn new_selection_selects_nothing() {
    let sel = HexViewSelection::new();
    assert_eq!(sel.state, HexViewSelectionState::Inactive);
    assert_eq!(sel.side, HexViewSelectionSide::Hex);
    assert_eq!(sel.range, HexViewSelectionRange { first: 0, second: 0 });
    assert!(!sel.contains(0));
    assert_eq!(sel, HexViewSelection::default());
}

#[test]
fn drag_backwards_then_finalize_then_clear() {
    let mut sel = HexViewSelection::new();
    sel.begin(5, HexViewSelectionSide::Hex);
    sel.update(2);
    assert_eq!(sel.start(), 2);
    assert_eq!(sel.end(), 5);
    assert_eq!(sel.state, HexViewSelectionState::Selecting);

    sel.finalize(7);
    assert_eq!(sel.start(), 5);
    assert_eq!(sel.end(), 7);
    assert_eq!(sel.state, HexViewSelectionState::Selected);

    sel.clear();
    assert_eq!(sel.state, HexViewSelectionState::Inactive);
    for pos in [0usize, 1, 5, 7, usize::MAX] {
        assert!(!sel.contains(pos));
    }
}

#[test]
fn begin_discards_earlier_selection_and_records_side() {
    let mut sel = selection(10, 20, HexViewSelectionState::Selected);
    sel.begin(3, HexViewSelectionSide::Hex);
    assert_eq!(sel.range, HexViewSelectionRange { first: 3, second: 3 });
    assert_eq!(sel.state, HexViewSelectionState::Selecting);
    assert_eq!(sel.side, HexViewSelectionSide::Hex);
}

#[test]
fn update_is_ignored_unless_selecting() {
    let mut done = selection(4, 6, HexViewSelectionState::Selected);
    done.update(9);
    assert_eq!(done, selection(4, 6, HexViewSelectionState::Selected));

    let mut none = HexViewSelection::new();
    none.update(9);
    assert_eq!(none, HexViewSelection::new());

    let mut dragging = selection(4, 6, HexViewSelectionState::Selecting);
    dragging.update(9);
    assert_eq!(dragging, selection(4, 9, HexViewSelectionState::Selecting));
}

#[test]
fn update_after_finalize_has_no_effect_until_begin() {
    let mut sel = HexViewSelection::new();
    sel.begin(1, HexViewSelectionSide::Ascii);
    sel.finalize(4);
    sel.update(9);
    assert_eq!(sel.end(), 4);
    sel.begin(2, HexViewSelectionSide::Ascii);
    sel.update(9);
    assert_eq!(sel.end(), 9);
}

#[test]
fn contains_is_inclusive_at_both_ends() {
    let sel = selection(7, 3, HexViewSelectionState::Selected);
    assert!(!sel.contains(2));
    assert!(sel.contains(3));
    assert!(sel.contains(5));
    assert!(sel.contains(7));
    assert!(!sel.contains(8));
}

#[test]
fn one_byte_selection_has_equal_ends() {
    let mut sel = HexViewSelection::new();
    sel.begin(9, HexViewSelectionSide::Hex);
    sel.finalize(9);
    assert_eq!(sel.start(), sel.end());
    assert_eq!(sel.end() - sel.start() + 1, 1);
    assert!(sel.contains(9));
    assert!(!sel.contains(8));
    assert!(!sel.contains(10));
}

#[test]
fn inactive_selection_contains_nothing_whatever_its_anchors() {
    let sel = selection(0, 100, HexViewSelectionState::Inactive);
    assert!(!sel.contains(0));
    assert!(!sel.contains(50));
}

#[test]
fn adjust_clamps_anchor_at_zero() {
    let mut sel = selection(3, 250, HexViewSelectionState::Selected);
    sel.adjust_cur_pos(-100);
    assert_eq!(sel.range.first, 0);
    assert_eq!(sel.range.second, 150);
    assert_eq!(sel.state, HexViewSelectionState::Selected);
    assert_eq!(sel.side, HexViewSelectionSide::Ascii);
}

#[test]
fn adjust_moves_both_anchors_up() {
    let mut sel = selection(3, 8, HexViewSelectionState::Selecting);
    sel.adjust_cur_pos(16);
    assert_eq!(sel.range, HexViewSelectionRange { first: 19, second: 24 });
    assert_eq!(sel.state, HexViewSelectionState::Selecting);
}

#[test]
fn shift_anchor_stops_at_both_ends_of_the_range() {
    assert_eq!(shift_anchor(3, -100), 0);
    assert_eq!(shift_anchor(3, -3), 0);
    assert_eq!(shift_anchor(3, -2), 1);
    assert_eq!(shift_anchor(0, isize::MIN), 0);
    assert_eq!(shift_anchor(usize::MAX, isize::MIN), usize::MAX - (isize::MAX as usize) - 1);
    assert_eq!(shift_anchor(usize::MAX, 1), usize::MAX);
    assert_eq!(shift_anchor(usize::MAX - 5, isize::MAX), usize::MAX);
    assert_eq!(shift_anchor(10, 5), 15);
    assert_eq!(shift_anchor(10, 0), 10);
}

#[test]
fn refit_clears_when_both_anchors_are_past_the_end() {
    let mut sel = selection(12, 15, HexViewSelectionState::Selected);
    sel.refit(10);
    assert_eq!(sel, HexViewSelection::new());

    let mut at_end = selection(10, 10, HexViewSelectionState::Selected);
    at_end.refit(10);
    assert_eq!(at_end, HexViewSelection::new());
}

#[test]
fn refit_clamps_one_anchor_and_keeps_state() {
    let mut sel = selection(4, 15, HexViewSelectionState::Selecting);
    sel.refit(10);
    assert_eq!(sel, selection(4, 9, HexViewSelectionState::Selecting));

    let mut other = selection(15, 4, HexViewSelectionState::Selected);
    other.refit(10);
    assert_eq!(other, selection(9, 4, HexViewSelectionState::Selected));
}

#[test]
fn refit_leaves_a_selection_inside_the_file() {
    let mut sel = selection(2, 5, HexViewSelectionState::Selected);
    sel.refit(6);
    assert_eq!(sel, selection(2, 5, HexViewSelectionState::Selected));
}

#[test]
fn refit_to_empty_file_clears() {
    let mut sel = selection(0, 0, HexViewSelectionState::Selected);
    sel.refit(0);
    assert_eq!(sel, HexViewSelection::new());
}

#[test]
fn mirrored_keeps_or_clears() {
    let sel = selection(3, 8, HexViewSelectionState::Selected);
    assert!(sel.fits(10));
    assert!(sel.fits(9));
    assert!(!sel.fits(8));
    assert_eq!(sel.mirrored(10), sel);
    assert_eq!(sel.mirrored(9), sel);
    assert_eq!(sel.mirrored(8), HexViewSelection::new());
    assert_eq!(sel.mirrored(5), HexViewSelection::new());
    assert_eq!(sel.mirrored(0), HexViewSelection::new());
}

#[test]
fn defaults_are_the_first_variants() {
    assert_eq!(HexViewSelectionState::default(), HexViewSelectionState::Inactive);
    assert_eq!(HexViewSelectionSide::default(), HexViewSelectionSide::Hex);
    assert_eq!(HexViewSelectionRange::default(), HexViewSelectionRange { first: 0, second: 0 });
}

use bdiff::{
    CursorState, HexViewSelection, HexViewSelectionRange, HexViewSelectionSide,
    HexViewSelectionState, IoError, KeyInput, Workspace,
};

fn keys() -> KeyInput {
    KeyInput {
        shift: false,
        arrow_left: false,
        arrow_right: false,
        arrow_up: false,
        arrow_down: false,
        home: false,
        end: false,
        page_up: false,
        page_down: false,
        enter: false,
    }
}

fn selection(first: usize, second: usize, state: HexViewSelectionState) -> HexViewSelection {
    HexViewSelection {
        range: HexViewSelectionRange { first, second },
        state,
        side: HexViewSelectionSide::Hex,
    }
}

fn workspace(files: &[&[u8]]) -> Workspace {
    let mut ws = Workspace::new();
    for (i, bytes) in files.iter().enumerate() {
        assert_eq!(ws.open_file(format!("file{}", i), Ok(bytes.to_vec())), Ok(i));
    }
    ws.recalculate_diffs();
    ws
}

#[test]
fn new_workspace_is_empty_and_mirrors() {
    let ws = Workspace::new();
    assert_eq!(ws.next_hv_id, 0);
    assert!(ws.hex_views.is_empty());
    assert!(ws.diff_state.offsets().is_empty());
    assert!(!ws.diff_state.enabled());
    assert!(ws.mirror_selection);
    assert_eq!(ws.global_selection, HexViewSelection::new());
    assert_eq!(ws.selecting_hv, None);
    assert_eq!(ws.last_selected_hv, None);
    assert_eq!(ws.goto_modal.value, "");
    assert_eq!(ws.goto_modal.status, "");
}

#[test]
fn open_file_adds_a_view_with_the_next_id() {
    let mut ws = Workspace::new();
    assert_eq!(ws.open_file("a".to_string(), Ok(vec![1, 2, 3])), Ok(0));
    assert_eq!(ws.open_file("b".to_string(), Ok(vec![4])), Ok(1));
    assert_eq!(ws.next_hv_id, 2);
    assert_eq!(ws.hex_views.len(), 2);
    assert_eq!(ws.hex_views[0].id, 0);
    assert_eq!(ws.hex_views[0].file.path, "a");
    assert_eq!(ws.hex_views[0].file.bytes, vec![1, 2, 3]);
    assert_eq!(ws.hex_views[1].id, 1);
    assert_eq!(ws.hex_views[1].file.path, "b");
    assert_eq!(ws.hex_views[1].bytes_per_row, 16);
}

#[test]
fn failed_open_creates_nothing() {
    let mut ws = workspace(&[&[1, 2, 3]]);
    for error in [
        IoError::NotFound,
        IoError::PermissionDenied,
        IoError::TruncatedRead,
        IoError::Other,
    ] {
        assert_eq!(ws.open_file("missing".to_string(), Err(error)), Err(error));
    }
    assert_eq!(ws.hex_views.len(), 1);
    assert_eq!(ws.next_hv_id, 1);
}

#[test]
fn views_are_found_by_id() {
    let mut ws = workspace(&[&[1], &[2], &[3]]);
    assert_eq!(ws.get_hex_view_by_id(0), Some(0));
    assert_eq!(ws.get_hex_view_by_id(2), Some(2));
    assert_eq!(ws.get_hex_view_by_id(3), None);
    ws.hex_views[0].closed = true;
    ws.remove_closed();
    assert_eq!(ws.get_hex_view_by_id(0), None);
    assert_eq!(ws.get_hex_view_by_id(1), Some(0));
    assert_eq!(ws.get_hex_view_by_id(2), Some(1));
    assert_eq!(Workspace::new().get_hex_view_by_id(0), None);
}

#[test]
fn recalculate_diffs_compares_the_open_files() {
    let mut ws = workspace(&[&[0, 1, 2, 3], &[0, 9, 2, 3]]);
    assert_eq!(ws.diff_state.offsets(), &vec![1]);
    ws.open_file("c".to_string(), Ok(vec![0, 1, 2])).unwrap();
    assert_eq!(ws.diff_state.offsets(), &vec![1]);
    ws.recalculate_diffs();
    assert_eq!(ws.diff_state.offsets(), &vec![1, 3]);
}

#[test]
fn mirroring_validates_against_each_file() {
    let mut ws = workspace(&[&[0; 10], &[0; 5]]);
    ws.global_selection = selection(3, 8, HexViewSelectionState::Selected);
    ws.mirror();
    assert_eq!(ws.hex_views[0].selection, selection(3, 8, HexViewSelectionState::Selected));
    assert_eq!(ws.hex_views[1].selection, HexViewSelection::new());
    assert_eq!(ws.global_selection, selection(3, 8, HexViewSelectionState::Selected));

    ws.mirror();
    assert_eq!(ws.hex_views[0].selection, selection(3, 8, HexViewSelectionState::Selected));
    assert_eq!(ws.hex_views[1].selection, HexViewSelection::new());
}

#[test]
fn mirroring_clears_when_only_the_end_is_outside() {
    let mut ws = workspace(&[&[0; 10], &[0; 8], &[0; 9], &[0; 3]]);
    ws.global_selection = selection(8, 3, HexViewSelectionState::Selecting);
    ws.mirror();
    assert_eq!(ws.hex_views[0].selection, selection(8, 3, HexViewSelectionState::Selecting));
    assert_eq!(ws.hex_views[1].selection, HexViewSelection::new());
    assert_eq!(ws.hex_views[2].selection, selection(8, 3, HexViewSelectionState::Selecting));
    assert_eq!(ws.hex_views[3].selection, HexViewSelection::new());
}

#[test]
fn mirroring_leaves_the_originating_view_alone() {
    let mut ws = workspace(&[&[0; 4], &[0; 20]]);
    let far = selection(10, 12, HexViewSelectionState::Selected);
    ws.hex_views[0].selection = far;
    ws.global_selection = far;
    ws.mirror();
    assert_eq!(ws.hex_views[0].selection, far);
    assert_eq!(ws.hex_views[1].selection, far);
}

#[test]
fn mirroring_a_cleared_selection_clears_every_view() {
    let mut ws = workspace(&[&[0; 10], &[0; 5], &[]]);
    ws.hex_views[0].selection = selection(1, 2, HexViewSelectionState::Selected);
    ws.hex_views[1].selection = selection(3, 4, HexViewSelectionState::Selected);
    ws.mirror();
    for view in &ws.hex_views {
        assert_eq!(view.selection, HexViewSelection::new());
    }
}

#[test]
fn a_changed_selection_becomes_the_shared_one() {
    let mut ws = workspace(&[&[0; 10], &[0; 10]]);
    let before = ws.hex_views[1].selection;
    ws.hex_views[1].selection.begin(4, HexViewSelectionSide::Ascii);
    ws.note_selection(1, before, CursorState::Pressed);
    assert_eq!(ws.selecting_hv, Some(1));
    assert_eq!(ws.last_selected_hv, Some(1));
    assert_eq!(ws.global_selection.state, HexViewSelectionState::Selecting);
    assert_eq!(ws.global_selection.range, HexViewSelectionRange { first: 4, second: 4 });
    assert!(ws.can_selection_change(1));
    assert!(!ws.can_selection_change(0));

    let before = ws.hex_views[1].selection;
    ws.hex_views[1].selection.finalize(6);
    ws.note_selection(1, before, CursorState::Released);
    assert_eq!(ws.selecting_hv, None);
    assert_eq!(ws.last_selected_hv, Some(1));
    assert_eq!(ws.global_selection.state, HexViewSelectionState::Selected);
    assert_eq!(ws.global_selection.range, HexViewSelectionRange { first: 4, second: 6 });
    assert!(ws.can_selection_change(0));
    assert!(ws.can_selection_change(1));
}

#[test]
fn an_unchanged_selection_changes_nothing_shared() {
    let mut ws = workspace(&[&[0; 10]]);
    ws.global_selection = selection(1, 2, HexViewSelectionState::Selected);
    ws.selecting_hv = Some(9);
    ws.last_selected_hv = Some(8);
    let before = ws.hex_views[0].selection;
    ws.note_selection(0, before, CursorState::Hovering);
    assert_eq!(ws.global_selection, selection(1, 2, HexViewSelectionState::Selected));
    assert_eq!(ws.selecting_hv, Some(9));
    assert_eq!(ws.last_selected_hv, Some(8));
}

#[test]
fn release_outside_the_view_ends_the_drag() {
    let mut ws = workspace(&[&[0; 10]]);
    ws.hex_views[0].selection = selection(2, 5, HexViewSelectionState::Selecting);
    let before = ws.hex_views[0].selection;
    ws.global_selection = before;
    ws.selecting_hv = Some(0);
    ws.note_selection(0, before, CursorState::Released);
    assert_eq!(ws.hex_views[0].selection, selection(2, 5, HexViewSelectionState::Selected));
    assert_eq!(ws.global_selection, selection(2, 5, HexViewSelectionState::Selecting));
    ws.release(CursorState::Released);
    assert_eq!(ws.global_selection, selection(2, 5, HexViewSelectionState::Selected));
    assert_eq!(ws.selecting_hv, None);

    ws.selecting_hv = Some(0);
    ws.global_selection = selection(2, 5, HexViewSelectionState::Selecting);
    ws.release(CursorState::StillDown);
    assert_eq!(ws.selecting_hv, Some(0));
    assert_eq!(ws.global_selection, selection(2, 5, HexViewSelectionState::Selecting));
}

#[test]
fn closed_views_are_removed_in_order() {
    let mut ws = workspace(&[&[1], &[2], &[3], &[4]]);
    assert!(!ws.remove_closed());
    assert_eq!(ws.hex_views.len(), 4);
    ws.hex_views[1].closed = true;
    ws.hex_views[3].closed = true;
    ws.last_selected_hv = Some(0);
    assert!(ws.remove_closed());
    let ids: Vec<usize> = ws.hex_views.iter().map(|v| v.id).collect();
    assert_eq!(ids, vec![0, 2]);
    assert_eq!(ws.last_selected_hv, Some(0));
    assert_eq!(ws.next_hv_id, 4);
}

#[test]
fn closing_the_last_selected_view_forgets_it() {
    let mut ws = workspace(&[&[1], &[2]]);
    ws.last_selected_hv = Some(1);
    ws.hex_views[1].closed = true;
    assert!(ws.remove_closed());
    assert_eq!(ws.last_selected_hv, None);
    assert_eq!(ws.hex_views.len(), 1);
}

#[test]
fn finish_step_mirrors_removes_and_clears_when_empty() {
    let mut ws = workspace(&[&[0; 10], &[0; 5]]);
    ws.global_selection = selection(3, 8, HexViewSelectionState::Selecting);
    ws.selecting_hv = Some(0);
    assert!(!ws.finish_step(CursorState::Released));
    assert_eq!(ws.selecting_hv, None);
    assert_eq!(ws.global_selection, selection(3, 8, HexViewSelectionState::Selected));
    assert_eq!(ws.hex_views[0].selection, selection(3, 8, HexViewSelectionState::Selected));
    assert_eq!(ws.hex_views[1].selection, HexViewSelection::new());

    ws.hex_views[0].closed = true;
    assert!(ws.finish_step(CursorState::Hovering));
    assert_eq!(ws.hex_views.len(), 1);
    assert_eq!(ws.global_selection, selection(3, 8, HexViewSelectionState::Selected));

    ws.hex_views[0].closed = true;
    assert!(ws.finish_step(CursorState::Hovering));
    assert!(ws.hex_views.is_empty());
    assert_eq!(ws.global_selection, HexViewSelection::new());
}

#[test]
fn finish_step_without_mirroring_leaves_selections() {
    let mut ws = workspace(&[&[0; 10], &[0; 5]]);
    ws.mirror_selection = false;
    ws.global_selection = selection(3, 8, HexViewSelectionState::Selected);
    ws.hex_views[1].selection = selection(1, 2, HexViewSelectionState::Selected);
    assert!(!ws.finish_step(CursorState::Hovering));
    assert_eq!(ws.hex_views[0].selection, HexViewSelection::new());
    assert_eq!(ws.hex_views[1].selection, selection(1, 2, HexViewSelectionState::Selected));
}

#[test]
fn reload_view_refits_the_selection_of_that_view_only() {
    let mut ws = workspace(&[&[0; 20], &[0; 20]]);
    ws.hex_views[0].selection = selection(4, 15, HexViewSelectionState::Selected);
    ws.hex_views[1].selection = selection(4, 15, HexViewSelectionState::Selected);
    assert_eq!(ws.reload_view(0, Ok(vec![1; 10])), Ok(()));
    assert_eq!(ws.hex_views[0].selection, selection(4, 9, HexViewSelectionState::Selected));
    assert_eq!(ws.hex_views[0].file.bytes, vec![1; 10]);
    assert_eq!(ws.hex_views[1].selection, selection(4, 15, HexViewSelectionState::Selected));
    assert_eq!(ws.reload_view(1, Err(IoError::NotFound)), Err(IoError::NotFound));
    assert_eq!(ws.hex_views[1].file.bytes, vec![0; 20]);
    assert_eq!(ws.reload_view(1, Ok(vec![0; 3])), Ok(()));
    assert_eq!(ws.hex_views[1].selection, HexViewSelection::new());
}

#[test]
fn keys_without_shift_move_every_view() {
    let mut ws = workspace(&[&[0; 1000], &[0; 100]]);
    ws.handle_hex_view_input(KeyInput { page_down: true, ..keys() }, 0);
    assert_eq!(ws.hex_views[0].cur_pos, 400);
    assert_eq!(ws.hex_views[1].cur_pos, 96);
    ws.handle_hex_view_input(keys(), 2);
    assert_eq!(ws.hex_views[0].cur_pos, 368);
    assert_eq!(ws.hex_views[1].cur_pos, 64);
    ws.hex_views[1].pos_locked = true;
    ws.handle_hex_view_input(KeyInput { home: true, ..keys() }, 0);
    assert_eq!(ws.hex_views[0].cur_pos, 0);
    assert_eq!(ws.hex_views[1].cur_pos, 64);
}

#[test]
fn enter_jumps_to_the_next_difference_when_shown() {
    let mut a = vec![0u8; 2000];
    let b = vec![0u8; 2000];
    a[1234] = 1;
    let mut ws = workspace(&[&a, &b]);
    assert_eq!(ws.diff_state.offsets(), &vec![1234]);
    ws.diff_state.set_enabled(true);
    ws.handle_hex_view_input(KeyInput { enter: true, ..keys() }, 0);
    assert_eq!(ws.hex_views[0].cur_pos, 1232);
    assert_eq!(ws.hex_views[1].cur_pos, 1232);
    ws.handle_hex_view_input(KeyInput { enter: true, ..keys() }, 0);
    assert_eq!(ws.hex_views[0].cur_pos, 1600);
    ws.diff_state.set_enabled(false);
    ws.move_views(KeyInput { home: true, enter: true, ..keys() }, 0);
    assert_eq!(ws.hex_views[0].cur_pos, 400);
}

#[test]
fn shift_arrows_move_the_last_selection_and_share_it() {
    let mut ws = workspace(&[&[0; 100], &[0; 100]]);
    ws.hex_views[1].selection = selection(20, 25, HexViewSelectionState::Selected);
    ws.last_selected_hv = Some(1);
    ws.handle_hex_view_input(KeyInput { shift: true, arrow_down: true, ..keys() }, 0);
    assert_eq!(ws.hex_views[1].selection, selection(36, 41, HexViewSelectionState::Selected));
    assert_eq!(ws.global_selection, selection(36, 41, HexViewSelectionState::Selected));
    assert_eq!(ws.hex_views[0].selection, HexViewSelection::new());
    assert_eq!(ws.hex_views[1].cur_pos, 0);

    let shared = ws.global_selection;
    ws.hex_views[1].selection = selection(0, 2, HexViewSelectionState::Selected);
    ws.handle_hex_view_input(KeyInput { shift: true, arrow_left: true, ..keys() }, 0);
    assert_eq!(ws.hex_views[1].selection, selection(0, 2, HexViewSelectionState::Selected));
    assert_eq!(ws.global_selection, shared);
}

#[test]
fn shift_arrows_do_nothing_without_a_last_selected_view() {
    let mut ws = workspace(&[&[0; 100]]);
    ws.hex_views[0].selection = selection(20, 25, HexViewSelectionState::Selected);
    ws.handle_hex_view_input(KeyInput { shift: true, arrow_down: true, page_down: true, ..keys() }, 3);
    assert_eq!(ws.hex_views[0].selection, selection(20, 25, HexViewSelectionState::Selected));
    assert_eq!(ws.hex_views[0].cur_pos, 0);
    ws.last_selected_hv = Some(42);
    ws.move_last_selection(KeyInput { arrow_down: true, ..keys() });
    assert_eq!(ws.hex_views[0].selection, selection(20, 25, HexViewSelectionState::Selected));
    assert_eq!(ws.global_selection, HexViewSelection::new());
}

#[test]
fn goto_moves_every_view_to_a_typed_address() {
    let mut ws = workspace(&[&[0; 1000], &[0; 100]]);
    ws.open_goto();
    assert_eq!(ws.goto_modal.value, "0x");
    ws.goto_modal.value = "0x20".to_string();
    assert!(ws.goto_address());
    assert_eq!(ws.hex_views[0].cur_pos, 0x20);
    assert_eq!(ws.hex_views[1].cur_pos, 0x20);
    assert_eq!(ws.goto_modal.value, "0x20");
    assert_eq!(ws.goto_modal.status, "");

    ws.goto_modal.value = " 1_000 ".to_string();
    assert!(ws.goto_address());
    assert_eq!(ws.hex_views[0].cur_pos, 992);
    assert_eq!(ws.hex_views[1].cur_pos, 96);

    ws.goto_modal.value = "0b101".to_string();
    assert!(ws.goto_address());
    assert_eq!(ws.hex_views[0].cur_pos, 5);
    ws.goto_modal.value = "0o17".to_string();
    assert!(ws.goto_address());
    assert_eq!(ws.hex_views[1].cur_pos, 15);
}

#[test]
fn goto_rejects_what_is_no_address() {
    let mut ws = workspace(&[&[0; 1000]]);
    ws.hex_views[0].set_cur_pos(48);
    for text in ["", "0x", "zz", "-1", "0x1g", "_1", "99999999999999999999999999"] {
        ws.goto_modal.value = text.to_string();
        ws.goto_modal.status = String::new();
        assert!(!ws.goto_address());
        assert_eq!(ws.goto_modal.status, "Invalid address");
        assert_eq!(ws.goto_modal.value, "0x");
        assert_eq!(ws.hex_views[0].cur_pos, 48);
    }
    ws.cancel_goto();
    assert_eq!(ws.goto_modal.status, "");
    assert_eq!(ws.goto_modal.value, "0x");
}

#[test]
fn apply_goto_takes_the_parsed_address() {
    let mut ws = workspace(&[&[0; 1000]]);
    assert!(ws.apply_goto(Some(100)));
    assert_eq!(ws.hex_views[0].cur_pos, 100);
    assert!(ws.apply_goto(Some(usize::MAX)));
    assert_eq!(ws.hex_views[0].cur_pos, 992);
    assert!(!ws.apply_goto(None));
    assert_eq!(ws.hex_views[0].cur_pos, 992);
    assert_eq!(ws.goto_modal.status, "Invalid address");
}

#[test]
fn copied_text_is_hex_or_text_by_side() {
    let mut ws = workspace(&[b"Hello, world", &[0x00, 0xff, 0x41]]);
    assert_eq!(ws.selection_text(), "");
    ws.hex_views[0].selection = selection(7, 11, HexViewSelectionState::Selected);
    ws.hex_views[1].selection = selection(0, 2, HexViewSelectionState::Selected);
    assert_eq!(ws.selection_text(), "");
    ws.last_selected_hv = Some(1);
    assert_eq!(ws.selection_text(), "00 FF 41");
    assert_eq!(ws.hex_views[1].selection_text(), "00 FF 41");
    ws.hex_views[1].selection.side = HexViewSelectionSide::Ascii;
    assert_eq!(ws.selection_text(), "\u{0}\u{fffd}A");
    ws.last_selected_hv = Some(0);
    assert_eq!(ws.selection_text(), "77 6F 72 6C 64");
    ws.hex_views[0].selection.side = HexViewSelectionSide::Ascii;
    assert_eq!(ws.selection_text(), "world");
    ws.hex_views[0].selection = HexViewSelection::new();
    assert_eq!(ws.selection_text(), "");
    ws.last_selected_hv = Some(5);
    assert_eq!(ws.selection_text(), "");
}

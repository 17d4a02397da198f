use bdiff::{
    BinaryFile, CursorState, HexView, HexViewSelection, HexViewSelectionRange,
    HexViewSelectionSide, HexViewSelectionState, IoError, MapFile, ParsePolicy, PointerEvent,
};

fn view_of(bytes: Vec<u8>) -> HexView {
    HexView::new(BinaryFile::new("a.bin".to_string(), bytes), 7)
}

fn counting(len: usize) -> Vec<u8> {
    (0..len).map(|i| (i % 251) as u8).collect()
}

fn select(view: &mut HexView, first: usize, second: usize) {
    view.selection = HexViewSelection {
        range: HexViewSelectionRange { first, second },
        state: HexViewSelectionState::Selected,
        side: HexViewSelectionSide::Hex,
    };
}

fn event(hovered: bool, inside: bool, middle_clicked: bool, cursor_state: CursorState) -> PointerEvent {
    PointerEvent { hovered, inside, middle_clicked, cursor_state }
}

#[test]
fn new_view_has_sixteen_bytes_per_row_and_clamped_rows() {
    let small = view_of(counting(5));
    assert_eq!(small.id, 7);
    assert_eq!(small.bytes_per_row, 16);
    assert_eq!(small.num_rows, 10);
    assert_eq!(small.cur_pos, 0);
    assert!(!small.pos_locked);
    assert_eq!(small.selection, HexViewSelection::new());
    assert_eq!(small.cursor_pos, None);
    assert!(small.show_selection_info);
    assert!(small.show_cursor_info);
    assert!(small.map_file.is_none());
    assert!(!small.closed);
    assert_eq!(small.file.path, "a.bin");

    assert_eq!(view_of(counting(16 * 10)).num_rows, 10);
    assert_eq!(view_of(counting(16 * 11 - 1)).num_rows, 10);
    assert_eq!(view_of(counting(16 * 11)).num_rows, 11);
    assert_eq!(view_of(counting(16 * 25)).num_rows, 25);
    assert_eq!(view_of(counting(16 * 40)).num_rows, 25);
    assert_eq!(view_of(Vec::new()).num_rows, 10);
}

#[test]
fn bytes_per_screen_is_rows_times_row_length() {
    assert_eq!(view_of(counting(5)).bytes_per_screen(), 160);
    assert_eq!(view_of(counting(16 * 40)).bytes_per_screen(), 400);
}

#[test]
fn set_cur_pos_stops_at_the_start_of_the_last_row() {
    let mut view = view_of(counting(100));
    view.set_cur_pos(32);
    assert_eq!(view.cur_pos, 32);
    view.set_cur_pos(33);
    assert_eq!(view.cur_pos, 33);
    view.set_cur_pos(96);
    assert_eq!(view.cur_pos, 96);
    view.set_cur_pos(97);
    assert_eq!(view.cur_pos, 96);
    view.set_cur_pos(usize::MAX);
    assert_eq!(view.cur_pos, 96);
    view.set_cur_pos(0);
    assert_eq!(view.cur_pos, 0);

    let mut full_rows = view_of(counting(64));
    full_rows.set_cur_pos(1000);
    assert_eq!(full_rows.cur_pos, 64);

    let mut empty = view_of(Vec::new());
    empty.set_cur_pos(5);
    assert_eq!(empty.cur_pos, 0);
}

#[test]
fn locked_view_does_not_move() {
    let mut view = view_of(counting(100));
    view.set_cur_pos(32);
    view.pos_locked = true;
    view.set_cur_pos(0);
    assert_eq!(view.cur_pos, 32);
    view.adjust_cur_pos(16);
    assert_eq!(view.cur_pos, 32);
    view.shift_view(16, true);
    assert_eq!(view.cur_pos, 32);
    view.pos_locked = false;
    view.adjust_cur_pos(16);
    assert_eq!(view.cur_pos, 48);
}

#[test]
fn adjust_cur_pos_clamps_at_both_ends() {
    let mut view = view_of(counting(100));
    view.adjust_cur_pos(-1);
    assert_eq!(view.cur_pos, 0);
    view.adjust_cur_pos(17);
    assert_eq!(view.cur_pos, 17);
    view.adjust_cur_pos(-16);
    assert_eq!(view.cur_pos, 1);
    view.adjust_cur_pos(isize::MIN);
    assert_eq!(view.cur_pos, 0);
    view.adjust_cur_pos(isize::MAX);
    assert_eq!(view.cur_pos, 96);
    view.adjust_cur_pos(1);
    assert_eq!(view.cur_pos, 96);
}

#[test]
fn shift_view_moves_by_an_unsigned_amount() {
    let mut view = view_of(counting(100));
    view.shift_view(40, false);
    assert_eq!(view.cur_pos, 40);
    view.shift_view(usize::MAX, false);
    assert_eq!(view.cur_pos, 96);
    view.shift_view(6, true);
    assert_eq!(view.cur_pos, 90);
    view.shift_view(usize::MAX, true);
    assert_eq!(view.cur_pos, 0);
    view.cur_pos = 500;
    view.shift_view(10, true);
    assert_eq!(view.cur_pos, 96);
    view.cur_pos = 500;
    view.shift_view(10, false);
    assert_eq!(view.cur_pos, 96);
}

#[test]
fn get_cur_bytes_is_cut_at_screen_and_file_end() {
    let bytes = counting(200);
    let mut view = view_of(bytes.clone());
    assert_eq!(view.bytes_per_screen(), 192);
    assert_eq!(view.get_cur_bytes(), bytes[0..192].to_vec());
    view.set_cur_pos(7);
    assert_eq!(view.get_cur_bytes(), bytes[7..199].to_vec());
    view.set_cur_pos(8);
    assert_eq!(view.get_cur_bytes(), bytes[8..200].to_vec());
    view.set_cur_pos(9);
    assert_eq!(view.get_cur_bytes(), bytes[9..200].to_vec());
    view.set_cur_pos(192);
    assert_eq!(view.get_cur_bytes(), bytes[192..200].to_vec());

    let short = view_of(vec![1, 2, 3]);
    assert_eq!(short.get_cur_bytes(), vec![1, 2, 3]);
    assert_eq!(view_of(Vec::new()).get_cur_bytes(), Vec::<u8>::new());

    let mut past = view_of(vec![1, 2, 3]);
    past.cur_pos = 3;
    assert_eq!(past.get_cur_bytes(), Vec::<u8>::new());
    past.cur_pos = 10;
    assert_eq!(past.get_cur_bytes(), Vec::<u8>::new());
}

#[test]
fn get_selected_bytes_includes_both_ends() {
    let mut view = view_of(vec![10, 11, 12, 13, 14, 15]);
    assert_eq!(view.get_selected_bytes(), Vec::<u8>::new());
    select(&mut view, 4, 2);
    assert_eq!(view.get_selected_bytes(), vec![12, 13, 14]);
    select(&mut view, 5, 5);
    assert_eq!(view.get_selected_bytes(), vec![15]);
    select(&mut view, 0, 5);
    assert_eq!(view.get_selected_bytes(), vec![10, 11, 12, 13, 14, 15]);
    view.selection.state = HexViewSelectionState::Selecting;
    assert_eq!(view.get_selected_bytes(), vec![10, 11, 12, 13, 14, 15]);
}

#[test]
fn get_selected_bytes_of_a_selection_past_the_end_is_empty() {
    let mut view = view_of(vec![10, 11, 12]);
    select(&mut view, 1, 3);
    assert_eq!(view.get_selected_bytes(), Vec::<u8>::new());
    select(&mut view, 0, usize::MAX);
    assert_eq!(view.get_selected_bytes(), Vec::<u8>::new());
    view.selection.state = HexViewSelectionState::Inactive;
    view.selection.range = HexViewSelectionRange { first: 0, second: 1 };
    assert_eq!(view.get_selected_bytes(), Vec::<u8>::new());
}

#[test]
fn reload_that_shrinks_below_both_anchors_clears_the_selection() {
    let mut view = view_of(counting(20));
    select(&mut view, 12, 15);
    assert_eq!(view.reload_file(Ok(counting(10))), Ok(()));
    assert_eq!(view.file.bytes, counting(10));
    assert_eq!(view.selection, HexViewSelection::new());
}

#[test]
fn reload_that_shrinks_below_one_anchor_clamps_it() {
    let mut view = view_of(counting(20));
    view.selection = HexViewSelection {
        range: HexViewSelectionRange { first: 4, second: 15 },
        state: HexViewSelectionState::Selecting,
        side: HexViewSelectionSide::Ascii,
    };
    assert_eq!(view.reload_file(Ok(counting(10))), Ok(()));
    assert_eq!(view.selection.range, HexViewSelectionRange { first: 4, second: 9 });
    assert_eq!(view.selection.state, HexViewSelectionState::Selecting);
    assert_eq!(view.selection.side, HexViewSelectionSide::Ascii);
}

#[test]
fn reload_that_grows_keeps_the_selection() {
    let mut view = view_of(counting(20));
    select(&mut view, 4, 15);
    view.set_cur_pos(16);
    assert_eq!(view.reload_file(Ok(counting(50))), Ok(()));
    assert_eq!(view.selection.range, HexViewSelectionRange { first: 4, second: 15 });
    assert_eq!(view.selection.state, HexViewSelectionState::Selected);
    assert_eq!(view.file.bytes.len(), 50);
    assert_eq!(view.cur_pos, 16);
    assert_eq!(view.num_rows, 10);
}

#[test]
fn failed_reload_changes_nothing() {
    let mut view = view_of(counting(20));
    select(&mut view, 4, 15);
    for error in [
        IoError::NotFound,
        IoError::PermissionDenied,
        IoError::TruncatedRead,
        IoError::Other,
    ] {
        assert_eq!(view.reload_file(Err(error)), Err(error));
        assert_eq!(view.file.bytes, counting(20));
        assert_eq!(view.selection.range, HexViewSelectionRange { first: 4, second: 15 });
        assert_eq!(view.selection.state, HexViewSelectionState::Selected);
    }
}

#[test]
fn press_drag_release_makes_a_selection() {
    let mut view = view_of(counting(64));
    view.handle_selection(event(true, true, false, CursorState::Pressed), 5, HexViewSelectionSide::Ascii);
    assert_eq!(view.selection.state, HexViewSelectionState::Selecting);
    assert_eq!(view.selection.range, HexViewSelectionRange { first: 5, second: 5 });
    assert_eq!(view.selection.side, HexViewSelectionSide::Ascii);
    assert_eq!(view.cursor_pos, Some(5));

    view.handle_selection(event(true, true, false, CursorState::StillDown), 9, HexViewSelectionSide::Hex);
    assert_eq!(view.selection.state, HexViewSelectionState::Selecting);
    assert_eq!(view.selection.range, HexViewSelectionRange { first: 5, second: 9 });
    assert_eq!(view.selection.side, HexViewSelectionSide::Ascii);
    assert_eq!(view.cursor_pos, Some(9));

    view.handle_selection(event(false, true, false, CursorState::Released), 12, HexViewSelectionSide::Hex);
    assert_eq!(view.selection.state, HexViewSelectionState::Selected);
    assert_eq!(view.selection.range, HexViewSelectionRange { first: 5, second: 12 });
    assert_eq!(view.cursor_pos, Some(9));

    view.handle_selection(event(false, true, false, CursorState::StillDown), 20, HexViewSelectionSide::Hex);
    assert_eq!(view.selection.range, HexViewSelectionRange { first: 5, second: 12 });
    view.handle_selection(event(false, true, false, CursorState::Released), 20, HexViewSelectionSide::Hex);
    assert_eq!(view.selection.range, HexViewSelectionRange { first: 5, second: 12 });
    assert_eq!(view.selection.state, HexViewSelectionState::Selected);
}

#[test]
fn pointer_outside_the_cell_does_not_drag() {
    let mut view = view_of(counting(64));
    view.handle_selection(event(true, false, false, CursorState::Pressed), 5, HexViewSelectionSide::Hex);
    view.handle_selection(event(false, false, false, CursorState::StillDown), 9, HexViewSelectionSide::Hex);
    assert_eq!(view.selection.range, HexViewSelectionRange { first: 5, second: 5 });
    view.handle_selection(event(false, false, false, CursorState::Released), 9, HexViewSelectionSide::Hex);
    assert_eq!(view.selection.state, HexViewSelectionState::Selecting);
    assert_eq!(view.cursor_pos, Some(5));
}

#[test]
fn hover_alone_only_moves_the_cursor() {
    let mut view = view_of(counting(64));
    view.handle_selection(event(true, true, false, CursorState::Hovering), 3, HexViewSelectionSide::Hex);
    assert_eq!(view.selection, HexViewSelection::new());
    assert_eq!(view.cursor_pos, Some(3));
}

#[test]
fn middle_click_clears_the_selection() {
    let mut view = view_of(counting(64));
    select(&mut view, 3, 8);
    view.handle_selection(event(false, false, true, CursorState::Hovering), 4, HexViewSelectionSide::Hex);
    assert_eq!(view.selection, HexViewSelection::new());

    view.handle_selection(event(true, true, true, CursorState::Pressed), 4, HexViewSelectionSide::Ascii);
    assert_eq!(view.selection, HexViewSelection::new());
    assert_eq!(view.cursor_pos, Some(4));
}

#[test]
fn cursor_state_is_read_from_the_button() {
    assert_eq!(CursorState::from_buttons(true, true, true), CursorState::Pressed);
    assert_eq!(CursorState::from_buttons(true, false, false), CursorState::Pressed);
    assert_eq!(CursorState::from_buttons(false, true, true), CursorState::StillDown);
    assert_eq!(CursorState::from_buttons(false, true, false), CursorState::StillDown);
    assert_eq!(CursorState::from_buttons(false, false, true), CursorState::Released);
    assert_eq!(CursorState::from_buttons(false, false, false), CursorState::Hovering);
}

#[test]
fn selection_info_reports_range_length_and_symbol() {
    let mut view = view_of(counting(0x40));
    assert!(view.selection_info().is_none());
    select(&mut view, 0x25, 0x12);
    let info = view.selection_info().unwrap();
    assert_eq!((info.start, info.end, info.length), (0x12, 0x25, 0x14));
    assert!(info.symbol.is_none());

    view.map_file = Some(
        MapFile::load(
            "a.map".to_string(),
            Ok("10 foo\n20 bar\n".to_string()),
            ParsePolicy::FailOnMalformed,
        )
        .unwrap(),
    );
    let info = view.selection_info().unwrap();
    let (entry, offset) = info.symbol.unwrap();
    assert_eq!(entry.name, "foo");
    assert_eq!(entry.address, 0x10);
    assert_eq!(offset, 2);

    select(&mut view, 0x3f, 0x3f);
    let info = view.selection_info().unwrap();
    assert_eq!((info.start, info.end, info.length), (0x3f, 0x3f, 1));
    assert_eq!(info.symbol.unwrap().0.name, "bar");
    assert_eq!(info.symbol.unwrap().1, 0x1f);

    select(&mut view, 0x3f, 0x40);
    assert!(view.selection_info().is_none());
    select(&mut view, 0, usize::MAX);
    assert!(view.selection_info().is_none());
}

#[test]
fn cursor_info_reports_position_and_symbol() {
    let mut view = view_of(counting(0x40));
    assert!(view.cursor_info().is_none());
    view.cursor_pos = Some(0x0f);
    view.map_file = Some(
        MapFile::load(
            "a.map".to_string(),
            Ok("10 foo\n".to_string()),
            ParsePolicy::FailOnMalformed,
        )
        .unwrap(),
    );
    let info = view.cursor_info().unwrap();
    assert_eq!(info.pos, 0x0f);
    assert!(info.symbol.is_none());
    view.cursor_pos = Some(0x33);
    let info = view.cursor_info().unwrap();
    assert_eq!(info.pos, 0x33);
    assert_eq!(info.symbol.unwrap().0.name, "foo");
    assert_eq!(info.symbol.unwrap().1, 0x23);
    view.cursor_pos = Some(usize::MAX);
    assert_eq!(view.lookup(usize::MAX).unwrap().1, usize::MAX - 0x10);
}

#[test]
fn binary_file_load_and_reload() {
    let file = BinaryFile::load("x".to_string(), Ok(vec![1, 2, 3])).unwrap();
    assert_eq!(file.path, "x");
    assert_eq!(file.bytes, vec![1, 2, 3]);
    assert_eq!(file.len(), 3);
    assert!(!file.modified);

    for error in [
        IoError::NotFound,
        IoError::PermissionDenied,
        IoError::TruncatedRead,
        IoError::Other,
    ] {
        assert_eq!(BinaryFile::load("x".to_string(), Err(error)).unwrap_err(), error);
    }

    let mut file = BinaryFile::new("x".to_string(), vec![1, 2, 3]);
    assert_eq!(file.reload(Err(IoError::TruncatedRead)), Err(IoError::TruncatedRead));
    assert_eq!(file.bytes, vec![1, 2, 3]);
    assert_eq!(file.reload(Ok(vec![9])), Ok(()));
    assert_eq!(file.bytes, vec![9]);
    assert_eq!(file.path, "x");
    assert_eq!(file.reload(Ok(Vec::new())), Ok(()));
    assert_eq!(file.len(), 0);
}

#[test]
fn binary_file_change_flag_is_cleared_on_consumption() {
    let mut file = BinaryFile::new("x".to_string(), vec![1]);
    assert!(!file.take_modified());
    file.mark_modified();
    assert!(file.modified);
    file.mark_modified();
    assert!(file.take_modified());
    assert!(!file.modified);
    assert!(!file.take_modified());
    assert_eq!(file.bytes, vec![1]);
}

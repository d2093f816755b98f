use ratatui::widgets::ListState;
use ratlog::selection::Selection;

fn same(selection: &Selection, state: &ListState) -> bool {
    selection.selected == state.selected() && selection.offset == state.offset()
}

#[test]
fn new_selection_selects_nothing() {
    assert_eq!(Selection::new(), Selection { selected: None, offset: 0 });
    assert_eq!(
        Selection::with_selected(Some(3)),
        Selection { selected: Some(3), offset: 0 }
    );
}

#[test]
fn select_none_resets_the_offset() {
    let mut s = Selection { selected: Some(4), offset: 9 };
    s.select(Some(2));
    assert_eq!(s, Selection { selected: Some(2), offset: 9 });
    s.select(None);
    assert_eq!(s, Selection { selected: None, offset: 0 });
}

#[test]
fn moves_from_nothing_selected() {
    let mut s = Selection::new();
    s.select_next();
    assert_eq!(s.selected, Some(0));
    let mut s = Selection::new();
    s.select_previous();
    assert_eq!(s.selected, Some(usize::MAX));
    let mut s = Selection::new();
    s.scroll_down_by(10);
    assert_eq!(s.selected, Some(10));
    let mut s = Selection::new();
    s.scroll_up_by(10);
    assert_eq!(s.selected, Some(0));
}

#[test]
fn moves_stop_at_the_ends_of_the_integers() {
    let mut s = Selection::with_selected(Some(0));
    s.select_previous();
    assert_eq!(s.selected, Some(0));
    s.scroll_up_by(3);
    assert_eq!(s.selected, Some(0));
    s.select_last();
    assert_eq!(s.selected, Some(usize::MAX));
    s.select_next();
    assert_eq!(s.selected, Some(usize::MAX));
    s.scroll_down_by(7);
    assert_eq!(s.selected, Some(usize::MAX));
    s.select_first();
    assert_eq!(s.selected, Some(0));
}

#[test]
fn moves_by_one_and_by_many() {
    let mut s = Selection { selected: Some(20), offset: 5 };
    s.select_next();
    assert_eq!(s, Selection { selected: Some(21), offset: 5 });
    s.select_previous();
    s.select_previous();
    assert_eq!(s, Selection { selected: Some(19), offset: 5 });
    s.scroll_down_by(10);
    assert_eq!(s, Selection { selected: Some(29), offset: 5 });
    s.scroll_up_by(30);
    assert_eq!(s, Selection { selected: Some(0), offset: 5 });
}

#[test]
fn selection_moves_as_the_list_widget_state_does() {
    // A fixed sequence of moves, applied to both.
    let mut selection = Selection::new();
    let mut state = ListState::default();
    let mut x: u32 = 12345;
    for _ in 0..5000 {
        x = x.wrapping_mul(1664525).wrapping_add(1013904223);
        let amount = ((x >> 8) % 40) as u16;
        match (x >> 24) % 9 {
            0 => {
                selection.select_next();
                state.select_next();
            }
            1 => {
                selection.select_previous();
                state.select_previous();
            }
            2 => {
                selection.select_first();
                state.select_first();
            }
            3 => {
                selection.select_last();
                state.select_last();
            }
            4 => {
                selection.scroll_down_by(amount);
                state.scroll_down_by(amount);
            }
            5 => {
                selection.scroll_up_by(amount);
                state.scroll_up_by(amount);
            }
            6 => {
                selection.select(None);
                state.select(None);
            }
            7 => {
                selection.select(Some(amount as usize));
                state.select(Some(amount as usize));
            }
            _ => {
                selection.offset = amount as usize;
                *state.offset_mut() = amount as usize;
            }
        }
        assert!(same(&selection, &state));
    }
}

#[test]
fn bounds_of_an_empty_list() {
    let mut s = Selection { selected: Some(3), offset: 2 };
    s.ensure_in_bounds(0);
    assert_eq!(s, Selection { selected: None, offset: 0 });
}

#[test]
fn bounds_of_a_shorter_list() {
    let mut s = Selection { selected: Some(30), offset: 12 };
    s.ensure_in_bounds(10);
    assert_eq!(s, Selection { selected: Some(9), offset: 0 });
    let mut s = Selection { selected: Some(usize::MAX), offset: 3 };
    s.ensure_in_bounds(10);
    assert_eq!(s, Selection { selected: Some(9), offset: 3 });
    let mut s = Selection { selected: Some(10), offset: 10 };
    s.ensure_in_bounds(10);
    assert_eq!(s, Selection { selected: Some(9), offset: 0 });
}

#[test]
fn bounds_leave_a_selection_inside_alone() {
    let mut s = Selection { selected: Some(4), offset: 2 };
    s.ensure_in_bounds(5);
    assert_eq!(s, Selection { selected: Some(4), offset: 2 });
    let mut s = Selection { selected: None, offset: 7 };
    s.ensure_in_bounds(8);
    assert_eq!(s, Selection { selected: None, offset: 7 });
    let mut s = Selection { selected: None, offset: 8 };
    s.ensure_in_bounds(8);
    assert_eq!(s, Selection { selected: None, offset: 0 });
}

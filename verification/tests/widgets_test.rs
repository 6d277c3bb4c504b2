use carpem::components::{ComponentName, Id};
use carpem::multi_list::{List, ListState};
use carpem::table_widget::{relative_line_number, Row, Table, TableState};
use carpem::ui_navigation::{Direction, NavigationError, UINavigation, View};

#[test]
fn list_toggle_marks_and_unmarks() {
    let mut state = ListState::default();
    assert!(!state.toggle());
    assert!(state.selected_indices.is_empty());

    state.next();
    assert_eq!(state.current_index, Some(0));
    state.next();
    assert_eq!(state.current_index, Some(1));
    assert!(state.toggle());
    assert_eq!(state.selected_indices, vec![1]);
    assert!(!state.toggle());
    assert!(state.selected_indices.is_empty());
}

#[test]
fn list_toggle_twice_keeps_other_marks() {
    let mut state = ListState::default();
    state.select_index(4);
    state.select_index(2);
    state.select_index(4);
    assert_eq!(state.selected_indices, vec![4, 2]);
    state.set_current_index(Some(7));
    assert!(state.toggle());
    assert!(!state.toggle());
    assert_eq!(state.selected_indices, vec![4, 2]);

    state.set_current_index(Some(4));
    assert!(!state.toggle());
    assert_eq!(state.selected_indices, vec![2]);
    assert!(state.toggle());
    assert_eq!(state.selected_indices, vec![2, 4]);
}

#[test]
fn list_moves_and_saturates() {
    let mut state = ListState::default();
    state.previous();
    assert_eq!(state.current_index, Some(usize::MAX));
    state.next();
    assert_eq!(state.current_index, Some(usize::MAX));
    state.highlight_first();
    state.previous();
    assert_eq!(state.current_index, Some(0));
    state.scroll_down_by(5);
    assert_eq!(state.current_index, Some(5));
    state.scroll_up_by(7);
    assert_eq!(state.current_index, Some(0));
    state.set_current_index(None);
    assert_eq!(state.offset, 0);
}

#[test]
fn table_next_then_previous() {
    let mut state = TableState::new();
    state.select_next();
    assert_eq!(state.selected(), Some(0));
    state.select_next();
    state.select_next();
    assert_eq!(state.selected(), Some(2));
    state.select_previous();
    assert_eq!(state.selected(), Some(1));

    state.select(Some(usize::MAX));
    state.select_next();
    assert_eq!(state.selected(), Some(usize::MAX));
    state.select_previous();
    assert_eq!(state.selected(), Some(usize::MAX - 1));
}

#[test]
fn table_scrolls_back_and_forth() {
    let mut state = TableState::new().with_selected(Some(10));
    state.scroll_down_by(3);
    assert_eq!(state.selected(), Some(13));
    state.scroll_up_by(3);
    assert_eq!(state.selected(), Some(10));
    state.scroll_up_by(20);
    assert_eq!(state.selected(), Some(0));
    state.scroll_down_by(20);
    assert_eq!(state.selected(), Some(20));
    state.select(None);
    assert_eq!(state.offset(), 0);
    assert_eq!(state.selected_column(), None);
}

#[test]
fn navigation_starts_on_task_list() {
    let nav = UINavigation::new().unwrap();
    assert_eq!(nav.current_view, View::TaskView);
    assert_eq!(nav.current_component_id, Id::CompName(ComponentName::TaskList));
    assert!(nav.popup.is_none());
}

#[test]
fn navigation_moves_in_task_view() {
    let mut nav = UINavigation::new().unwrap();
    nav.move_to(&Direction::Right).unwrap();
    assert_eq!(nav.current_component_id, Id::CompName(ComponentName::TagFilter));
    nav.move_to(&Direction::Up).unwrap();
    assert_eq!(nav.current_component_id, Id::CompName(ComponentName::CurrentTagsInfo));
    nav.move_to(&Direction::Up).unwrap();
    assert_eq!(nav.current_component_id, Id::CompName(ComponentName::CurrentTagsInfo));
    nav.move_to(&Direction::Left).unwrap();
    assert_eq!(nav.current_component_id, Id::CompName(ComponentName::TaskList));
    nav.move_to(&Direction::Left).unwrap();
    assert_eq!(nav.current_component_id, Id::CompName(ComponentName::TaskList));
    nav.move_to(&Direction::Down).unwrap();
    assert_eq!(nav.current_component_id, Id::CompName(ComponentName::TaskList));
}

#[test]
fn navigation_switches_views() {
    let mut nav = UINavigation::new().unwrap();
    nav.next_view();
    assert_eq!(nav.current_view, View::CalendarView);
    assert_eq!(nav.current_component_id, Id::CompName(ComponentName::Calendar));
    nav.move_to(&Direction::Down).unwrap();
    assert_eq!(nav.current_component_id, Id::CompName(ComponentName::CurrentDayList));
    nav.move_to(&Direction::Right).unwrap();
    assert_eq!(nav.current_component_id, Id::CompName(ComponentName::CurrentDayList));
    nav.move_to(&Direction::Up).unwrap();
    assert_eq!(nav.current_component_id, Id::CompName(ComponentName::Calendar));
    nav.next_view();
    assert_eq!(nav.current_view, View::TaskView);
    assert_eq!(nav.current_component_id, Id::CompName(ComponentName::TaskList));
}

#[test]
fn navigation_fails_without_layout() {
    let mut nav = UINavigation::new().unwrap();
    nav.current_view = View::PopupView;
    assert!(matches!(
        nav.move_to(&Direction::Up),
        Err(NavigationError::NoTarget { direction: Direction::Up, view: View::PopupView, .. })
    ));
    nav.current_view = View::TaskView;
    nav.current_component_id = Id::CompName(ComponentName::Calendar);
    assert!(nav.move_to(&Direction::Down).is_err());
    assert_eq!(nav.current_component_id, Id::CompName(ComponentName::Calendar));
}

#[test]
fn navigation_popup() {
    let mut nav = UINavigation::new().unwrap();
    nav.set_popup(ComponentName::DateInput);
    assert_eq!(nav.popup, Some(Id::CompName(ComponentName::DateInput)));
    nav.remove_popup();
    assert!(nav.popup.is_none());
}

#[test]
fn layout_names_to_ids() {
    let map = vec![("a", Id::CompName(ComponentName::Calendar)), ("b", Id::CompName(ComponentName::TagFilter))];
    let grid = vec![vec!["a", ""], vec!["b", "a"]];
    let ids = UINavigation::transform_to_ids(&grid, &map).unwrap();
    assert_eq!(
        ids,
        vec![
            vec![Id::CompName(ComponentName::Calendar), Id::Empty],
            vec![Id::CompName(ComponentName::TagFilter), Id::CompName(ComponentName::Calendar)],
        ]
    );
    let bad = vec![vec!["a"], vec!["c", "d"]];
    match UINavigation::transform_to_ids(&bad, &map) {
        Err(NavigationError::UnknownName(s)) => assert_eq!(s, "c"),
        _ => panic!("expected an unknown name"),
    }
}

#[test]
fn views_name_their_bindings() {
    assert_eq!(View::TaskView.get_name(), ComponentName::TaskViewGlobal);
    assert_eq!(View::CalendarView.get_name(), ComponentName::EventViewGlobal);
    assert_eq!(View::PopupView.get_default_active_id(), Id::CompName(ComponentName::DateInput));
    assert_eq!(Id::CompNameId { name: ComponentName::SelectedDate, id: 1 }.get_name(), ComponentName::SelectedDate);
    assert_eq!(Id::Empty.get_name(), ComponentName::NoName);
}

fn state_at(offset: usize, current: Option<usize>) -> ListState {
    ListState::default().with_offset(offset).with_selected(current)
}

fn shown(list: &List, height: u16, offset: usize, current: Option<usize>) -> Option<(usize, usize)> {
    let mut state = state_at(offset, current);
    let r = list.visible_items(10, height, &mut state);
    if let Some((first, _)) = r {
        assert_eq!(state.offset, first);
    }
    r
}

#[test]
fn list_shows_what_fits_from_the_offset() {
    let list = List::new(vec![1; 20]);
    assert_eq!(shown(&list, 5, 0, None), Some((0, 5)));
    assert_eq!(shown(&list, 3, 30, None), Some((19, 20)));
    let five = List::new(vec![1; 5]);
    assert_eq!(shown(&five, 3, 2, Some(30)), Some((2, 5)));
}

#[test]
fn list_scrolls_to_the_highlighted_item() {
    let list = List::new(vec![1; 20]);
    assert_eq!(shown(&list, 5, 0, Some(12)), Some((8, 13)));
    let padded = List::new(vec![1; 20]).scroll_padding(2);
    assert_eq!(shown(&padded, 5, 0, Some(12)), Some((10, 15)));
    let one = List::new(vec![1; 20]).scroll_padding(1);
    assert_eq!(shown(&one, 5, 10, Some(2)), Some((1, 6)));
    let wide = List::new(vec![1; 20]).scroll_padding(8);
    assert_eq!(shown(&wide, 10, 5, Some(3)), Some((0, 10)));
}

#[test]
fn list_with_items_of_several_heights() {
    let list = List::new(vec![1, 3, 2, 1, 4, 1, 1, 2]);
    assert_eq!(shown(&list, 5, 0, Some(6)), Some((5, 7)));
    let padded = List::new(vec![1, 3, 2, 1, 4, 1, 1, 2]).scroll_padding(1);
    assert_eq!(shown(&padded, 4, 6, Some(1)), Some((1, 2)));
    // An item taller than the area is not shown, even when highlighted.
    let tall = List::new(vec![2, 2, 7, 1]);
    assert_eq!(shown(&tall, 5, 0, Some(2)), Some((2, 2)));
}

#[test]
fn list_drawing_keeps_the_highlight_within_the_items() {
    let list = List::new(vec![1; 10]);
    let mut state = state_at(0, Some(15));
    assert_eq!(list.visible_items(5, 4, &mut state), Some((6, 10)));
    assert_eq!(state.current_index, Some(9));
    assert_eq!(state.offset, 6);

    let empty = List::new(vec![]);
    assert!(empty.is_empty());
    let mut state = state_at(7, Some(3));
    assert_eq!(empty.visible_items(5, 4, &mut state), None);
    assert_eq!(state.current_index, None);
    assert_eq!(state.offset, 0);

    let mut state = state_at(7, Some(3));
    assert_eq!(list.visible_items(0, 4, &mut state), None);
    assert_eq!(state.current_index, Some(3));
    assert_eq!(state.offset, 7);
    assert_eq!(list.len(), 10);
}

fn rows_of(sizes: &[(u16, u16, u16)]) -> Vec<Row> {
    sizes
        .iter()
        .map(|&(h, t, b)| Row::new(vec!["x".to_string()]).height(h).top_margin(t).bottom_margin(b))
        .collect()
}

fn table_shows(sizes: &[(u16, u16, u16)], offset: usize, selected: Option<usize>, area: u16) -> Option<(usize, usize)> {
    let table = Table::new(rows_of(sizes));
    let mut state = TableState::new().with_offset(offset).with_selected(selected);
    let r = table.shown_rows(20, area + 2, area, &mut state);
    if let Some((start, _)) = r {
        assert_eq!(state.offset, start);
    }
    r
}

#[test]
fn table_shows_rows_around_the_selection() {
    let ones = [(1, 0, 0); 20];
    assert_eq!(table_shows(&ones, 0, None, 5), Some((0, 5)));
    assert_eq!(table_shows(&ones, 0, Some(12), 5), Some((8, 13)));
    assert_eq!(table_shows(&ones, 10, Some(3), 5), Some((3, 8)));
    assert_eq!(table_shows(&[(1, 1, 0); 10], 0, Some(7), 6), Some((5, 8)));
}

#[test]
fn table_shows_a_partial_last_row() {
    let sizes = [(2, 0, 0), (1, 0, 0), (3, 0, 0), (1, 0, 0)];
    assert_eq!(table_shows(&sizes, 0, None, 4), Some((0, 3)));
    assert_eq!(table_shows(&sizes, 0, Some(2), 4), Some((1, 3)));
    // A selected row taller than the area is scrolled past.
    assert_eq!(table_shows(&[(5, 0, 0), (1, 0, 0)], 0, Some(0), 3), Some((1, 2)));
}

#[test]
fn table_drawing_keeps_selections_within_rows_and_columns() {
    let table = Table::new(rows_of(&[(1, 0, 0); 4]))
        .header(Row::new(vec!["a".to_string(), "b".to_string(), "c".to_string()]));
    assert_eq!(table.column_count(), 3);
    let mut state = TableState::new().with_selected(Some(9)).with_selected_column(Some(5));
    assert_eq!(table.shown_rows(10, 12, 10, &mut state), Some((0, 4)));
    assert_eq!(state.selected, Some(3));
    assert_eq!(state.selected_column, Some(2));

    let empty = Table::new(vec![]);
    assert_eq!(empty.column_count(), 0);
    let mut state = TableState::new().with_offset(4).with_selected(Some(1)).with_selected_column(Some(0));
    assert_eq!(empty.shown_rows(10, 12, 10, &mut state), None);
    assert_eq!(state, TableState::new());

    let mut state = TableState::new().with_offset(4).with_selected(Some(9));
    assert_eq!(table.shown_rows(0, 12, 10, &mut state), None);
    assert_eq!(state.selected, Some(9));
    assert_eq!(state.offset, 4);
}

#[test]
fn relative_line_numbers() {
    assert_eq!(relative_line_number(Some(5), 5), 5);
    assert_eq!(relative_line_number(Some(5), 2), 3);
    assert_eq!(relative_line_number(Some(5), 9), 4);
    assert_eq!(relative_line_number(None, 0), 0);
    assert_eq!(relative_line_number(None, 3), 3);
}

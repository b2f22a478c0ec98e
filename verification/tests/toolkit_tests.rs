use lovett::gui_tk::{
    block_layers, centered_x, checked_centered_x, eq_gui_state, eq_gui_states, handle_hid_event, Event,
    Frame, GuiState, Palette, Response, StateGroups,
};
use lovett::canvas::{Canvas, Layer};
use lovett::color::Color;
use lovett::fb::FB;
use lovett::hid::{Button, ButtonInitializer, ButtonPad, HIDEvent, IOState, Level};
use lovett::shapes::{Drawable, Rect};
use lovett::views::{InputMode, Navigator, Route};

fn press(code: u8) -> HIDEvent {
    HIDEvent { io_state: IOState::Pressed, code }
}

// objects 0 and 1 in cell (0, 0), 2 in (0, 2), 3 in (2, 1), 4 in (3, 3)
fn grid() -> Navigator {
    let mut v = Navigator::new();
    for (row, column) in [(0, 0), (0, 0), (0, 2), (2, 1), (3, 3)] {
        v.add_object(row, column);
        v.gui_state.push(GuiState::Base);
    }
    v.activate();
    v
}

fn selected(v: &Navigator) -> (usize, usize, usize) {
    (v.selected_row, v.selected_column, v.selected_object)
}

#[test]
fn new_view_has_four_rows_of_four_empty_cells() {
    let v = Navigator::new();
    assert_eq!(v.nav_index, vec![vec![Vec::<usize>::new(); 4]; 4]);
    assert_eq!(selected(&v), (0, 0, 0));
    assert_eq!(v.input_mode, InputMode::Navigate);
    assert_eq!(v.objects_len(), 0);
    assert!(v.gui_state.is_empty());
}

#[test]
fn objects_are_numbered_as_they_are_added() {
    let mut v = Navigator::new();
    v.add_object(1, 2);
    v.add_static_object();
    v.add_object(1, 2);
    v.add_object(3, 0);
    assert_eq!(v.nav_index[1][2], vec![0, 2]);
    assert_eq!(v.nav_index[3][0], vec![3]);
    assert_eq!(v.objects_len(), 4);
}

#[test]
fn activate_selects_the_first_object() {
    let v = grid();
    assert_eq!(selected(&v), (0, 0, 0));
    assert_eq!(v.gui_state[0], GuiState::Selected);
    assert!(v.states_cover());
    assert!(v.selection_found());
}

#[test]
fn right_moves_within_the_cell_then_to_the_next_filled_cell() {
    let mut v = grid();
    v.h_move(1);
    assert_eq!(selected(&v), (0, 0, 1));
    assert_eq!(v.gui_state, vec![GuiState::Base, GuiState::Selected, GuiState::Base, GuiState::Base, GuiState::Base]);
    v.h_move(1);
    assert_eq!(selected(&v), (0, 2, 2));
    v.h_move(1);
    assert_eq!(selected(&v), (0, 2, 2));
}

#[test]
fn left_lands_on_the_last_object_of_the_cell() {
    let mut v = grid();
    v.h_move(1);
    v.h_move(1);
    v.h_move(-1);
    assert_eq!(selected(&v), (0, 0, 1));
    v.h_move(-1);
    assert_eq!(selected(&v), (0, 0, 0));
    v.h_move(-1);
    assert_eq!(selected(&v), (0, 0, 0));
    assert_eq!(v.gui_state[0], GuiState::Selected);
}

#[test]
fn down_skips_rows_without_objects_and_takes_the_nearest_cell() {
    let mut v = grid();
    v.v_move(1);
    assert_eq!(selected(&v), (2, 1, 3));
    assert_eq!(v.gui_state[3], GuiState::Selected);
    assert_eq!(v.gui_state[0], GuiState::Base);
    v.v_move(1);
    assert_eq!(selected(&v), (3, 3, 4));
    v.v_move(1);
    assert_eq!(selected(&v), (3, 3, 4));
}

#[test]
fn up_looks_right_before_left() {
    let mut v = grid();
    v.v_move(1);
    // from column 1 of row 2 up: row 1 is empty, in row 0 the cell to the
    // right is nearer in the order of the search than the one to the left
    v.v_move(-1);
    assert_eq!(selected(&v), (0, 2, 2));
}

#[test]
fn moves_off_the_grid_change_nothing() {
    let mut v = grid();
    v.v_move(-1);
    assert_eq!(selected(&v), (0, 0, 0));
    v.v_move(7);
    assert_eq!(selected(&v), (0, 0, 0));
    v.v_move(isize::MAX);
    v.v_move(isize::MIN);
    assert_eq!(selected(&v), (0, 0, 0));
}

#[test]
fn short_row_takes_its_last_filled_cell() {
    let mut v = grid();
    v.nav_index[1] = vec![vec![], vec![3]];
    v.selected_column = 2;
    v.selected_object = 2;
    v.v_move(1);
    assert_eq!(selected(&v), (1, 1, 3));
}

#[test]
fn nav_acts_on_presses_of_the_direction_buttons() {
    let mut v = grid();
    assert!(v.nav_allowed(&press(3)));
    assert_eq!(v.nav(&press(3)).map(|e| e.name), None);
    assert_eq!(selected(&v), (0, 0, 1));
    v.nav(&press(2));
    assert_eq!(selected(&v), (0, 0, 0));
    v.nav(&press(5));
    assert_eq!(selected(&v), (2, 1, 3));
    v.nav(&press(4));
    assert_eq!(selected(&v), (0, 2, 2));
    v.nav(&HIDEvent { io_state: IOState::Released, code: 5 });
    v.nav(&HIDEvent { io_state: IOState::Repeated, code: 5 });
    v.nav(&press(9));
    assert_eq!(selected(&v), (0, 2, 2));
}

#[test]
fn nav_is_not_allowed_without_states_or_selection() {
    let mut v = Navigator::new();
    v.add_object(0, 0);
    assert!(!v.nav_allowed(&press(5)));
    assert!(v.nav_allowed(&HIDEvent { io_state: IOState::Released, code: 5 }));
    v.gui_state.push(GuiState::Base);
    assert!(v.nav_allowed(&press(5)));
    assert!(v.nav_allowed(&press(3)));
    v.selected_object = 0;
    v.selected_column = 1;
    assert!(!v.nav_allowed(&press(3)));
    assert!(v.nav_allowed(&press(4)));
}

#[test]
fn routes_depend_on_the_mode() {
    let mut v = grid();
    assert_eq!(v.route(&press(0)), Route::Ignore);
    assert_eq!(v.route(&press(1)), Route::Escape);
    assert_eq!(v.route(&press(6)), Route::ToSelected);
    assert_eq!(v.route(&press(2)), Route::Navigate);
    assert_eq!(v.route(&press(200)), Route::Navigate);
    v.send_to_selected(false, None);
    assert_eq!(v.input_mode, InputMode::Manipulate);
    for code in [0, 1, 2, 6, 200] {
        assert_eq!(v.route(&press(code)), Route::ToSelected);
    }
    v.send_to_selected(true, Some(GuiState::Clicked));
    assert_eq!(v.input_mode, InputMode::Navigate);
    assert_eq!(v.gui_state[0], GuiState::Clicked);
    assert!(v.escape().is_none());
}

#[test]
fn move_selection_clears_the_first_selected_state() {
    let mut v = grid();
    v.gui_state = vec![GuiState::Base, GuiState::Selected, GuiState::Clicked, GuiState::Selected, GuiState::Base];
    v.selected_object = 4;
    assert!(v.move_selection());
    assert_eq!(v.gui_state, vec![GuiState::Base, GuiState::Base, GuiState::Clicked, GuiState::Selected, GuiState::Selected]);
    v.selected_object = 3;
    assert!(!v.move_selection());
    assert_eq!(v.gui_state[3], GuiState::Selected);
    v.gui_state = vec![GuiState::Base; 5];
    assert!(!v.move_selection());
}

#[test]
fn set_gui_state_tells_whether_the_state_is_new() {
    let mut v = grid();
    assert!(!v.set_gui_state(GuiState::Selected));
    assert!(v.set_gui_state(GuiState::Clicked));
    assert_eq!(v.gui_state[0], GuiState::Clicked);
}

#[test]
fn gui_states_compare_by_value() {
    let all = [GuiState::Base, GuiState::Clicked, GuiState::Selected];
    for a in all {
        for b in all {
            assert_eq!(eq_gui_state(&a, &b), a == b);
        }
    }
    assert!(eq_gui_states(&vec![], &vec![]));
    assert!(eq_gui_states(&all.to_vec(), &all.to_vec()));
    assert!(!eq_gui_states(&all.to_vec(), &vec![GuiState::Base, GuiState::Clicked]));
    assert!(!eq_gui_states(&all.to_vec(), &vec![GuiState::Base, GuiState::Clicked, GuiState::Base]));
}

#[test]
fn widgets_answer_the_select_button_only() {
    let ignored = Response { return_control: false, gui_state: None, send_event: false };
    let clicked = Response { return_control: false, gui_state: Some(GuiState::Clicked), send_event: true };
    let released = Response { return_control: true, gui_state: Some(GuiState::Selected), send_event: false };
    for repeats in [false, true] {
        assert_eq!(handle_hid_event(&press(6), repeats), clicked);
        assert_eq!(handle_hid_event(&HIDEvent { io_state: IOState::Released, code: 6 }, repeats), released);
        assert_eq!(handle_hid_event(&press(5), repeats), ignored);
        assert_eq!(handle_hid_event(&HIDEvent { io_state: IOState::Released, code: 0 }, repeats), ignored);
    }
    let repeated = HIDEvent { io_state: IOState::Repeated, code: 6 };
    assert_eq!(handle_hid_event(&repeated, true), clicked);
    assert_eq!(handle_hid_event(&repeated, false), ignored);
}

#[test]
fn text_is_centered_in_wider_widgets_only() {
    assert_eq!(centered_x(10, 100, 12, 40), 40);
    assert_eq!(centered_x(10, 100, 12, 41), 39);
    assert_eq!(centered_x(-50, 20, 0, 10), -45);
    assert_eq!(centered_x(10, 100, 10, 100), 10);
    assert_eq!(centered_x(10, 100, 17, 100), 17);
    assert_eq!(centered_x(10, 100, 17, 150), 17);
    assert_eq!(centered_x(10, -5, -3, 0), -3);
}

#[test]
fn centering_fails_where_there_is_no_position() {
    assert_eq!(checked_centered_x(10, 100, 12, 40), Some(40));
    assert_eq!(checked_centered_x(10, 100, 12, 150), Some(12));
    assert_eq!(checked_centered_x(10, 100, 12, -1), None);
    assert_eq!(checked_centered_x(i32::MAX, i32::MAX, 0, 0), None);
    assert_eq!(checked_centered_x(i32::MAX - 5, 10, 0, 0), Some(i32::MAX));
    assert_eq!(checked_centered_x(i32::MAX - 4, 10, 0, 0), None);
}

#[test]
fn palette_gives_the_colors_of_each_state() {
    let c = |n: u8| Color::new(n, n, n);
    let p = Palette::new(c(1), c(2), c(3), c(4), c(5), c(6), c(7), c(8), c(9));
    assert_eq!((p.base, p.base_text, p.base_background), (c(1), c(2), c(3)));
    assert_eq!(p.colors_of(GuiState::Base), (c(1), c(2), c(3)));
    assert_eq!(p.colors_of(GuiState::Selected), (c(4), c(5), c(6)));
    assert_eq!(p.colors_of(GuiState::Clicked), (c(7), c(8), c(9)));
}

#[test]
fn event_holds_what_it_was_made_of() {
    let e = Event::new("[Start]", Some(vec![String::from("steam")]));
    assert_eq!(e.name, "[Start]");
    assert_eq!(e.values, Some(vec![String::from("steam")]));
    assert_eq!(Event::new("", None).values, None);
}

fn widget_canvas(groups: &StateGroups) -> Canvas {
    let mut canvas = Canvas::new(FB::new(240, 240, 480, 2).unwrap());
    let rect = |x: i32| Drawable::Rect(Rect::new(x, 0, 1, 1, true, Color::new(255, 255, 255)));
    let mut layers = vec![
        Layer::new(rect(0), true, groups.regular_name.clone()),
        Layer::new(rect(1), false, String::from("other")),
        Layer::new(rect(2), false, groups.clicked_name.clone()),
        Layer::new(rect(3), false, groups.selected_name.clone()),
        Layer::new(rect(4), true, groups.regular_name.clone()),
    ];
    canvas.append(&mut layers);
    canvas
}

fn active(canvas: &Canvas) -> Vec<bool> {
    canvas.layers.iter().map(|l| l.active).collect()
}

fn ids(layers: &Vec<Layer<Drawable>>) -> Vec<i32> {
    layers
        .iter()
        .map(|l| match &*l.item {
            Drawable::Rect(r) => r.x,
            _ => unreachable!(),
        })
        .collect()
}

#[test]
fn block_has_a_background_for_each_state() {
    let c = |n: u8| Color::new(n, n, n);
    let palette = Palette::new(c(1), c(2), c(3), c(4), c(5), c(6), c(7), c(8), c(9));
    let groups = StateGroups::new(&String::from("b"));
    let layers = block_layers(&Frame { x: 1, y: 2, w: 30, h: 40 }, &palette, &groups);
    let seen: Vec<(bool, &str, u8)> = layers
        .iter()
        .map(|l| match &*l.item {
            Drawable::Rect(r) => {
                assert_eq!((r.x, r.y, r.w, r.h, r.filled), (1, 2, 30, 40, true));
                (l.active, l.group.as_str(), r.color.r)
            }
            _ => unreachable!(),
        })
        .collect();
    assert_eq!(seen, vec![(true, "b - regular", 3), (false, "b - clicked", 9), (false, "b - selected", 6)]);
}

#[test]
fn state_groups_are_named_after_the_widget() {
    let groups = StateGroups::new(&String::from("Button - 7"));
    assert_eq!(groups.regular_name, "Button - 7 - regular");
    assert_eq!(groups.selected_name, "Button - 7 - selected");
    assert_eq!(groups.clicked_name, "Button - 7 - clicked");
}

#[test]
fn a_widget_shows_the_layers_of_its_state_only() {
    let groups = StateGroups::new(&String::from("w"));
    let mut canvas = widget_canvas(&groups);
    groups.activate(&mut canvas, GuiState::Clicked);
    assert_eq!(active(&canvas), vec![false, false, true, false, false]);
    groups.activate(&mut canvas, GuiState::Selected);
    assert_eq!(active(&canvas), vec![false, false, false, true, false]);
    groups.activate(&mut canvas, GuiState::Base);
    assert_eq!(active(&canvas), vec![true, false, false, false, true]);
    groups.deactivate(&mut canvas);
    assert_eq!(active(&canvas), vec![false, false, false, false, false]);
}

#[test]
fn a_widget_takes_its_layers_by_state() {
    let groups = StateGroups::new(&String::from("w"));
    let mut canvas = widget_canvas(&groups);
    let taken = groups.take_layers(&mut canvas);
    assert_eq!(ids(&taken), vec![0, 4, 3, 2]);
    assert_eq!(ids(&canvas.layers), vec![1]);
    let mut canvas = widget_canvas(&groups);
    groups.drop_layers(&mut canvas);
    assert_eq!(ids(&canvas.layers), vec![1]);
}

fn pad(levels: &Vec<Level>) -> ButtonPad {
    let pins: Vec<ButtonInitializer> = (0..levels.len())
        .map(|i| ButtonInitializer { pin: i as u8, code: 10 + i as u8, key: "k" })
        .collect();
    ButtonPad::new(&pins, levels)
}

#[test]
fn pad_starts_at_rest() {
    let p = pad(&vec![Level::High, Level::Low]);
    assert_eq!(p.buttons[0], Button { state: Level::High, possible_state: Level::High, code: 10, repeat: 0 });
    assert_eq!(p.buttons[1], Button { state: Level::Low, possible_state: Level::Low, code: 11, repeat: 0 });
    assert_eq!(Button::new(Level::Low, 3), Button { state: Level::Low, possible_state: Level::Low, code: 3, repeat: 0 });
}

#[test]
fn press_is_reported_once_it_is_confirmed() {
    let mut p = pad(&vec![Level::High]);
    let high = vec![Level::High];
    let low = vec![Level::Low];
    // first seen low after the poll: nothing yet
    assert_eq!(p.detect_changes(&high, &low), vec![]);
    assert_eq!(p.buttons[0].possible_state, Level::Low);
    // confirmed low at the next poll
    assert_eq!(p.detect_changes(&low, &low), vec![HIDEvent { io_state: IOState::Pressed, code: 10 }]);
    assert_eq!(p.buttons[0].state, Level::Low);
    // and released the same way
    assert_eq!(p.detect_changes(&low, &high), vec![]);
    assert_eq!(p.detect_changes(&high, &high), vec![HIDEvent { io_state: IOState::Released, code: 10 }]);
    assert_eq!(p.buttons[0].state, Level::High);
}

#[test]
fn bounce_is_forgotten() {
    let mut p = pad(&vec![Level::High]);
    let high = vec![Level::High];
    let low = vec![Level::Low];
    assert_eq!(p.detect_changes(&high, &low), vec![]);
    // not confirmed: the button is high again
    assert_eq!(p.detect_changes(&high, &high), vec![]);
    assert_eq!(p.buttons[0], Button { state: Level::High, possible_state: Level::High, code: 10, repeat: 0 });
}

#[test]
fn held_button_repeats_after_25_polls_and_then_every_5() {
    let mut p = pad(&vec![Level::Low]);
    let low = vec![Level::Low];
    let mut repeats = vec![];
    for poll in 1..=40 {
        if !p.detect_changes(&low, &low).is_empty() {
            repeats.push(poll);
        }
        assert!(p.buttons[0].repeat < 25);
    }
    assert_eq!(repeats, vec![25, 30, 35, 40]);
    assert_eq!(p.buttons[0].repeat, 20);
}

#[test]
fn release_resets_the_repeat_count() {
    let mut p = pad(&vec![Level::Low]);
    let low = vec![Level::Low];
    let high = vec![Level::High];
    for _ in 0..10 {
        p.detect_changes(&low, &low);
    }
    assert_eq!(p.buttons[0].repeat, 10);
    p.detect_changes(&low, &high);
    assert_eq!(p.buttons[0].repeat, 11);
    assert_eq!(p.detect_changes(&high, &high), vec![HIDEvent { io_state: IOState::Released, code: 10 }]);
    assert_eq!(p.buttons[0].repeat, 0);
}

#[test]
fn pad_reports_events_in_the_order_of_its_buttons() {
    let mut p = pad(&vec![Level::High, Level::High, Level::Low]);
    let next = vec![Level::Low, Level::High, Level::High];
    p.detect_changes(&vec![Level::High, Level::High, Level::Low], &next);
    let events = p.detect_changes(&next, &next);
    assert_eq!(
        events,
        vec![
            HIDEvent { io_state: IOState::Pressed, code: 10 },
            HIDEvent { io_state: IOState::Released, code: 12 },
        ]
    );
}

#[test]
fn pad_is_well_formed_while_counts_are_in_range() {
    let mut p = pad(&vec![Level::Low, Level::High]);
    assert!(p.is_wf());
    p.buttons[1].repeat = 24;
    assert!(p.is_wf());
    p.buttons[1].repeat = 25;
    assert!(!p.is_wf());
}

#[test]
fn single_button_poll_returns_event_and_new_state() {
    let mut b = Button { state: Level::High, possible_state: Level::Low, code: 1, repeat: 7 };
    assert_eq!(ButtonPad::detect_button_changes(&mut b, Level::Low), Some(IOState::Pressed));
    assert_eq!(b, Button { state: Level::Low, possible_state: Level::Low, code: 1, repeat: 0 });
    let mut b = Button { state: Level::High, possible_state: Level::High, code: 1, repeat: 7 };
    assert_eq!(ButtonPad::detect_button_changes(&mut b, Level::Low), None);
    assert_eq!(b, Button { state: Level::High, possible_state: Level::High, code: 1, repeat: 7 });
}

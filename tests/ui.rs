use scheme_switch::parser::locate_configs;
use scheme_switch::schemes::current_selection;
use scheme_switch::ui::{decode, Action, Error, Event, Frame, ScrollableList};

fn strings(items: &[&str]) -> Vec<String> {
    items.iter().map(|s| s.to_string()).collect()
}

fn five() -> Vec<String> {
    strings(&["a", "b", "c", "d", "e"])
}

fn check_invariant(list: &ScrollableList) {
    assert!(list.frame.start <= list.selected);
    assert!(list.selected < list.frame.end);
    assert_eq!(list.frame.end - list.frame.start, list.height.min(list.items.len()));
}

#[test]
fn zero_height_is_invalid() {
    assert_eq!(ScrollableList::new(five(), 0, 0, 40).err(), Some(Error::InvalidHeight));
}

#[test]
fn height_above_item_count_is_invalid() {
    assert_eq!(ScrollableList::new(five(), 0, 6, 40).err(), Some(Error::InvalidHeight));
}

#[test]
fn zero_rows_make_height_invalid() {
    assert_eq!(ScrollableList::new(five(), 0, 3, 0).err(), Some(Error::InvalidHeight));
}

#[test]
fn height_is_clamped_to_rows() {
    let list = ScrollableList::new(five(), 0, 6, 2).unwrap();
    assert_eq!(list.height, 2);
    assert_eq!(list.frame, Frame { start: 0, end: 2 });
}

#[test]
fn empty_items_fail_the_height_check_first() {
    assert_eq!(ScrollableList::new(Vec::new(), 0, 0, 40).err(), Some(Error::InvalidHeight));
    assert_eq!(ScrollableList::new(Vec::new(), 0, 1, 40).err(), Some(Error::InvalidHeight));
}

#[test]
fn selected_outside_range() {
    assert_eq!(ScrollableList::new(five(), 5, 3, 40).err(), Some(Error::SelectedOutsideRange));
    assert_eq!(ScrollableList::new(five(), 9, 5, 40).err(), Some(Error::SelectedOutsideRange));
}

#[test]
fn initial_frame_near_the_end() {
    let list = ScrollableList::new(five(), 3, 3, 40).unwrap();
    assert_eq!(list.frame, Frame { start: 2, end: 5 });
    let list = ScrollableList::new(five(), 1, 3, 40).unwrap();
    assert_eq!(list.frame, Frame { start: 1, end: 4 });
}

#[test]
fn full_height_frame_spans_the_list() {
    let list = ScrollableList::new(five(), 2, 5, 40).unwrap();
    assert_eq!(list.frame, Frame { start: 0, end: 5 });
}

#[test]
fn arrow_offset_is_longest_item() {
    let list = ScrollableList::new(strings(&["a", "bbbb", "cc"]), 0, 2, 40).unwrap();
    assert_eq!(list.arrow_offset, 4);
}

#[test]
fn invariant_holds_through_moves() {
    for height in 1..=5 {
        for start in 0..5 {
            let mut list = ScrollableList::new(five(), start, height, 40).unwrap();
            check_invariant(&list);
            for step in 0..12 {
                if step % 3 == 0 {
                    list.decrement_selected();
                } else {
                    list.increment_selected();
                }
                check_invariant(&list);
            }
            for _ in 0..6 {
                list.decrement_selected();
                check_invariant(&list);
            }
        }
    }
}

#[test]
fn move_down_at_last_is_noop() {
    let mut list = ScrollableList::new(five(), 4, 3, 40).unwrap();
    let frame = list.frame;
    list.increment_selected();
    assert_eq!(list.selected, 4);
    assert_eq!(list.frame, frame);
}

#[test]
fn move_up_at_first_is_noop() {
    let mut list = ScrollableList::new(five(), 0, 3, 40).unwrap();
    list.decrement_selected();
    assert_eq!(list.selected, 0);
    assert_eq!(list.frame, Frame { start: 0, end: 3 });
}

#[test]
fn scrolling_down_shifts_the_frame_by_one() {
    let mut list = ScrollableList::new(five(), 0, 3, 40).unwrap();
    assert_eq!(list.frame, Frame { start: 0, end: 3 });
    list.increment_selected();
    assert_eq!(list.selected, 1);
    assert_eq!(list.frame, Frame { start: 0, end: 3 });
    list.increment_selected();
    list.increment_selected();
    assert_eq!(list.selected, 3);
    assert_eq!(list.frame, Frame { start: 1, end: 4 });
}

#[test]
fn scrolling_up_moves_the_frame_head_to_the_selection() {
    let mut list = ScrollableList::new(five(), 4, 2, 40).unwrap();
    assert_eq!(list.frame, Frame { start: 3, end: 5 });
    list.decrement_selected();
    assert_eq!(list.frame, Frame { start: 3, end: 5 });
    list.decrement_selected();
    assert_eq!(list.selected, 2);
    assert_eq!(list.frame, Frame { start: 2, end: 4 });
}

#[test]
fn decode_maps_keys() {
    assert_eq!(decode([10, 0, 0]), Event::Confirm);
    assert_eq!(decode([27, 91, 65]), Event::MoveUp);
    assert_eq!(decode([27, 91, 66]), Event::MoveDown);
    assert_eq!(decode([27, 91, 67]), Event::Ignore);
    assert_eq!(decode([27, 0, 0]), Event::Ignore);
    assert_eq!(decode([106, 0, 0]), Event::MoveDown);
    assert_eq!(decode([107, 0, 0]), Event::MoveUp);
    assert_eq!(decode([5, 0, 0]), Event::Ignore);
    assert_eq!(decode([0, 0, 0]), Event::Ignore);
}

#[test]
fn render_paints_the_window() {
    let list = ScrollableList::new(strings(&["a", "bb", "c"]), 0, 2, 40).unwrap();
    let expected = String::from("\x1B[s")
        + "\x1B[2K\x1B[36ma  \x1B[0m \n"
        + "\x1B[2Kbb \x1B[38;2;226;44;44m\u{25BC}\x1B[0m\n"
        + "\x1B[u";
    assert_eq!(list.render(), expected);
}

#[test]
fn render_marks_both_edges_in_the_middle() {
    let mut list = ScrollableList::new(strings(&["a", "b", "c", "d", "e"]), 1, 3, 40).unwrap();
    list.increment_selected();
    assert_eq!(list.frame, Frame { start: 1, end: 4 });
    let expected = String::from("\x1B[s")
        + "\x1B[2Kb \x1B[38;2;226;44;44m\u{25B2}\x1B[0m\n"
        + "\x1B[2K\x1B[36mc\x1B[0m\n"
        + "\x1B[2Kd \x1B[38;2;226;44;44m\u{25BC}\x1B[0m\n"
        + "\x1B[u";
    assert_eq!(list.render(), expected);
}

#[test]
fn render_at_the_bottom_of_the_list() {
    let list = ScrollableList::new(strings(&["a", "b", "c"]), 2, 2, 40).unwrap();
    let expected = String::from("\x1B[s")
        + "\x1B[2Kb \x1B[38;2;226;44;44m\u{25B2}\x1B[0m\n"
        + "\x1B[2K\x1B[36mc \x1B[0m \n"
        + "\x1B[u";
    assert_eq!(list.render(), expected);
}

#[test]
fn render_unselected_top_of_list_gets_padding() {
    let list = ScrollableList::new(strings(&["a", "b", "c"]), 1, 3, 40).unwrap();
    let expected = String::from("\x1B[s")
        + "\x1B[2Ka  \n"
        + "\x1B[2K\x1B[36mb\x1B[0m\n"
        + "\x1B[2Kc  \n"
        + "\x1B[u";
    assert_eq!(list.render(), expected);
}

#[test]
fn buffer_window_reserves_lines() {
    let list = ScrollableList::new(five(), 0, 2, 40).unwrap();
    assert_eq!(list.buffer_window(), "\n\n\x1B[1A\x1B[1A");
}

fn run(
    list: &mut ScrollableList,
    input: Vec<[u8; 3]>,
    fail: bool,
) -> (Result<(), Error>, Vec<String>, usize) {
    let limit = input.len();
    let mut next = 0;
    let mut read = move || {
        let chunk = input.get(next).copied();
        next += 1;
        chunk
    };
    let mut calls: Vec<String> = Vec::new();
    let mut paints = 0usize;
    let result = {
        let paint = |_: &str| paints += 1;
        let mut func = |item: &str| {
            calls.push(item.to_string());
            if fail {
                Err(Error::CmdError)
            } else {
                Ok(())
            }
        };
        list.event_loop(&mut read, paint, &mut func, limit)
    };
    (result, calls, paints)
}

#[test]
fn confirm_hands_the_selected_item_to_the_callback() {
    let mut list = ScrollableList::new(five(), 2, 3, 40).unwrap();
    let (result, calls, paints) = run(&mut list, vec![[10, 0, 0]], false);
    assert_eq!(result, Ok(()));
    assert_eq!(calls, vec!["c".to_string()]);
    assert_eq!(paints, 3);
}

#[test]
fn unknown_input_changes_nothing() {
    let mut list = ScrollableList::new(five(), 0, 3, 40).unwrap();
    let (result, calls, _) = run(&mut list, vec![[5, 0, 0]], false);
    assert_eq!(result, Ok(()));
    assert!(calls.is_empty());
    assert_eq!(list.selected, 0);
    assert_eq!(list.frame, Frame { start: 0, end: 3 });
}

#[test]
fn failed_read_is_ignored() {
    let mut list = ScrollableList::new(five(), 1, 3, 40).unwrap();
    let (result, calls, paints) = run(&mut list, Vec::new(), false);
    assert_eq!(result, Ok(()));
    assert!(calls.is_empty());
    assert_eq!(paints, 2);
}

#[test]
fn callback_failure_ends_the_loop() {
    let mut list = ScrollableList::new(five(), 0, 3, 40).unwrap();
    let (result, calls, paints) =
        run(&mut list, vec![[106, 0, 0], [10, 0, 0], [106, 0, 0]], true);
    assert_eq!(result, Err(Error::CmdError));
    assert_eq!(calls, vec!["b".to_string()]);
    // the window buffer, the first paint, and one repaint after the move
    assert_eq!(paints, 3);
    assert_eq!(list.selected, 1);
}

#[test]
fn keys_drive_the_selection() {
    let mut list = ScrollableList::new(five(), 0, 3, 40).unwrap();
    let input = vec![[106, 0, 0], [27, 91, 66], [106, 0, 0], [27, 91, 65], [107, 0, 0]];
    let (result, _, paints) = run(&mut list, input, false);
    assert_eq!(result, Ok(()));
    assert_eq!(paints, 7);
    assert_eq!(list.selected, 1);
    assert_eq!(list.frame, Frame { start: 1, end: 4 });
}

#[test]
fn current_selection_finds_first_match() {
    let schemes = strings(&["dark", "light", "srcery", "light"]);
    assert_eq!(current_selection(&schemes, &Some("light".to_string())), 1);
    assert_eq!(current_selection(&schemes, &Some("srcery".to_string())), 2);
}

#[test]
fn current_selection_defaults_to_first() {
    let schemes = strings(&["dark", "light"]);
    assert_eq!(current_selection(&schemes, &Some("solarized".to_string())), 0);
    assert_eq!(current_selection(&schemes, &None), 0);
    assert_eq!(current_selection(&Vec::new(), &Some("dark".to_string())), 0);
}

fn located(paths: &[&str]) -> Result<(String, String), String> {
    locate_configs(&strings(paths)).map_err(|e| format!("{:?}", e))
}

#[test]
fn locate_configs_picks_both_files() {
    let found = located(&[
        "/home/u/.config/alacritty/alacritty.yml",
        "/home/u/.config/alacritty/alacritty_color_schemes.yml",
    ]);
    assert_eq!(
        found,
        Ok((
            "/home/u/.config/alacritty/alacritty.yml".to_string(),
            "/home/u/.config/alacritty/alacritty_color_schemes.yml".to_string()
        ))
    );
}

#[test]
fn locate_configs_rejects_duplicates() {
    let found = located(&["/a/alacritty.yml", "/b/alacritty.yml", "/a/alacritty_color_schemes.yml"]);
    assert_eq!(found, Err("DuplicateConfigFiles".to_string()));
}

#[test]
fn locate_configs_needs_schemes_first() {
    assert_eq!(located(&["/a/alacritty.yml"]), Err("MissingColorSchemes".to_string()));
    assert_eq!(located(&[]), Err("MissingColorSchemes".to_string()));
}

#[test]
fn locate_configs_needs_main_config() {
    assert_eq!(
        located(&["/a/alacritty_color_schemes.yml"]),
        Err("MissingAlacrittyYaml".to_string())
    );
}

#[test]
fn handle_j_j_enter_confirms_c() {
    let mut list = ScrollableList::new(five(), 0, 3, 24).unwrap();
    assert_eq!(list.handle(Some([106, 0, 0])), Event::MoveDown);
    assert_eq!(list.handle(Some([106, 0, 0])), Event::MoveDown);
    assert_eq!(list.handle(Some([10, 0, 0])), Event::Confirm);
    assert_eq!(list.selected, 2);
    assert_eq!(list.frame, Frame { start: 0, end: 3 });
    let mut seen: Vec<String> = Vec::new();
    let mut func = |item: &str| {
        seen.push(item.to_string());
        Ok(())
    };
    assert_eq!(list.act_on_selection(&mut func), Ok(()));
    assert_eq!(seen, vec!["c".to_string()]);
}

#[test]
fn handle_unknown_byte_and_failed_read_change_nothing() {
    let mut list = ScrollableList::new(five(), 1, 3, 24).unwrap();
    assert_eq!(list.handle(Some([5, 0, 0])), Event::Ignore);
    assert_eq!(list.handle(None), Event::Ignore);
    assert_eq!(list.selected, 1);
    assert_eq!(list.frame, Frame { start: 1, end: 4 });
}

#[test]
fn handle_arrow_keys_scroll() {
    let mut list = ScrollableList::new(five(), 0, 3, 24).unwrap();
    for _ in 0..3 {
        assert_eq!(list.handle(Some([27, 91, 66])), Event::MoveDown);
    }
    assert_eq!(list.selected, 3);
    assert_eq!(list.frame, Frame { start: 1, end: 4 });
    assert_eq!(list.handle(Some([27, 91, 65])), Event::MoveUp);
    assert_eq!(list.selected, 2);
    assert_eq!(list.frame, Frame { start: 1, end: 4 });
    assert_eq!(list.handle(Some([27, 0, 0])), Event::Ignore);
    assert_eq!(list.selected, 2);
}

#[test]
fn callback_error_is_passed_on() {
    let list = ScrollableList::new(five(), 4, 3, 24).unwrap();
    let mut func = |_: &str| Err(Error::CmdError);
    assert_eq!(list.act_on_selection(&mut func), Err(Error::CmdError));
}

#[test]
fn zero_limit_only_paints() {
    let mut list = ScrollableList::new(five(), 2, 3, 24).unwrap();
    let (result, calls, paints) = run(&mut list, Vec::new(), false);
    assert_eq!(result, Ok(()));
    assert!(calls.is_empty());
    assert_eq!(paints, 2);
    assert_eq!(list.selected, 2);
}

#[test]
fn error_messages() {
    assert_eq!(Error::EmptyItems.message(), "Items can't be empty.");
    assert_eq!(
        Error::CmdError.message(),
        "There was an error executing command on selection."
    );
    assert_eq!(
        Error::SelectedOutsideRange.message(),
        "Selected index is outside the index range of items."
    );
    assert_eq!(
        Error::InvalidHeight.message(),
        "Height can't be less than 1, greater than length of items, nor greater than the window height."
    );
}

#[test]
fn locate_configs_short_paths() {
    assert_eq!(located(&["a", "/x/alacritty_color_schemes.yml"]), Err("MissingAlacrittyYaml".to_string()));
}

#[test]
fn step_j_j_enter_confirms_c_once() {
    let mut list = ScrollableList::new(five(), 0, 3, 24).unwrap();
    let first = list.step(Some([106, 0, 0]));
    assert_eq!(first, Action::Repaint(list.render()));
    assert!(matches!(list.step(Some([106, 0, 0])), Action::Repaint(_)));
    assert_eq!(list.step(Some([10, 0, 0])), Action::Confirm("c".to_string()));
    assert_eq!(list.selected, 2);
    assert_eq!(list.frame, Frame { start: 0, end: 3 });
}

#[test]
fn step_unknown_byte_and_failed_read_repaint_only() {
    let mut list = ScrollableList::new(five(), 1, 3, 24).unwrap();
    let screen = list.render();
    assert_eq!(list.step(Some([5, 0, 0])), Action::Repaint(screen.clone()));
    assert_eq!(list.step(None), Action::Repaint(screen));
    assert_eq!(list.selected, 1);
    assert_eq!(list.frame, Frame { start: 1, end: 4 });
}

#[test]
fn step_arrow_keys_never_confirm() {
    let mut list = ScrollableList::new(five(), 0, 3, 24).unwrap();
    for _ in 0..3 {
        assert!(matches!(list.step(Some([27, 91, 66])), Action::Repaint(_)));
    }
    assert_eq!(list.selected, 3);
    assert_eq!(list.frame, Frame { start: 1, end: 4 });
    assert!(matches!(list.step(Some([27, 91, 65])), Action::Repaint(_)));
    assert_eq!(list.selected, 2);
    assert_eq!(list.frame, Frame { start: 1, end: 4 });
}

#[test]
fn set_frame_far_below_shifts_one_line() {
    let mut list = ScrollableList::new(strings(&["a", "b", "c", "d", "e", "f"]), 0, 2, 24).unwrap();
    list.selected = 5;
    list.set_frame();
    assert_eq!(list.frame, Frame { start: 1, end: 3 });
}

#[test]
fn set_frame_far_above_uses_the_head_clamp() {
    let mut list = ScrollableList::new(strings(&["a", "b", "c", "d", "e", "f"]), 5, 2, 24).unwrap();
    assert_eq!(list.frame, Frame { start: 4, end: 6 });
    list.selected = 1;
    list.set_frame();
    assert_eq!(list.frame, Frame { start: 1, end: 3 });
    list.frame = Frame { start: 5, end: 6 };
    list.selected = 4;
    list.set_frame();
    assert_eq!(list.frame, Frame { start: 2, end: 4 });
}

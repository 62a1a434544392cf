use date_picker::picker::{DatePicker, LayoutKey, PointerEvent, Reaction, State};

fn picker() -> DatePicker<&'static str> {
    DatePicker::new(320, "Choose a date...", "").padding(10).size(30).on_focus("focus")
}

fn click(p: &DatePicker<&'static str>, s: &mut State, in_input: bool, row: i32, column: i32) -> Reaction {
    p.on_event(s, PointerEvent::Pressed { inside: true });
    p.on_event(s, PointerEvent::Released { inside: true, in_input, row, column })
}

fn date(s: &State) -> (i32, u32, u32) {
    (s.year(), s.month(), s.day())
}

#[test]
fn release_in_input_toggles_focus() {
    let p = picker();
    let mut s = State::new(2024, 3, 15).unwrap();
    let r = click(&p, &mut s, true, 0, 3);
    assert!(matches!(r, Reaction::ToggleFocus));
    assert_eq!(date(&s), (2024, 3, 15));
    assert!(!s.is_pressed());
}

#[test]
fn previous_control_from_january() {
    let p = picker();
    let mut s = State::new(2024, 1, 31).unwrap();
    let r = click(&p, &mut s, false, 8, 1);
    assert!(matches!(r, Reaction::Nothing));
    assert_eq!(date(&s), (2023, 12, 31));
}

#[test]
fn next_control_clamps_the_day() {
    let p = picker();
    let mut s = State::new(2024, 3, 31).unwrap();
    let r = click(&p, &mut s, false, 8, 7);
    assert!(matches!(r, Reaction::Nothing));
    assert_eq!(date(&s), (2024, 4, 30));
}

#[test]
fn selecting_the_first_of_march() {
    let p = picker();
    let mut s = State::new(2024, 3, 1).unwrap();
    let r = click(&p, &mut s, false, 2, 5);
    match r {
        Reaction::Changed(text) => assert_eq!(text, "2024-03-01"),
        _ => panic!("expected a change"),
    }
    assert_eq!(date(&s), (2024, 3, 1));
}

#[test]
fn selecting_a_day_of_the_month() {
    let p = picker();
    let mut s = State::new(2024, 3, 1).unwrap();
    let r = click(&p, &mut s, false, 4, 3);
    match r {
        Reaction::Changed(text) => assert_eq!(text, "2024-03-13"),
        _ => panic!("expected a change"),
    }
    assert_eq!(date(&s), (2024, 3, 13));
}

#[test]
fn selecting_a_leading_cell_goes_back_a_month() {
    let p = picker();
    let mut s = State::new(2024, 3, 10).unwrap();
    let r = click(&p, &mut s, false, 2, 2);
    match r {
        Reaction::Changed(text) => assert_eq!(text, "2024-02-27"),
        _ => panic!("expected a change"),
    }
    assert_eq!(date(&s), (2024, 2, 27));

    let mut s = State::new(2025, 1, 10).unwrap();
    click(&p, &mut s, false, 2, 1);
    assert_eq!(date(&s), (2024, 12, 30));
}

#[test]
fn selecting_a_trailing_cell_goes_forward_a_month() {
    let p = picker();
    let mut s = State::new(2024, 3, 10).unwrap();
    let r = click(&p, &mut s, false, 7, 1);
    match r {
        Reaction::Changed(text) => assert_eq!(text, "2024-04-01"),
        _ => panic!("expected a change"),
    }
    assert_eq!(date(&s), (2024, 4, 1));

    let mut s = State::new(2023, 12, 5).unwrap();
    click(&p, &mut s, false, 7, 7);
    assert_eq!(date(&s), (2024, 1, 7));
}

#[test]
fn twelve_steps_each_way() {
    let p = picker();
    let mut s = State::new(2024, 5, 31).unwrap();
    for _ in 0..12 {
        click(&p, &mut s, false, 8, 2);
        assert!(s.day() <= date_picker::calendar::number_days_month(s.month(), s.year()));
    }
    assert_eq!((s.year(), s.month()), (2023, 5));
    for _ in 0..12 {
        click(&p, &mut s, false, 8, 6);
        assert!(s.day() <= date_picker::calendar::number_days_month(s.month(), s.year()));
    }
    assert_eq!((s.year(), s.month()), (2024, 5));
}

#[test]
fn release_outside_closes_a_focused_picker() {
    let p = picker();
    let mut s = State::new(2024, 3, 15).unwrap();
    s.is_focused = true;
    p.on_event(&mut s, PointerEvent::Pressed { inside: true });
    let r = p.on_event(&mut s, PointerEvent::Released { inside: false, in_input: false, row: 0, column: 0 });
    assert!(matches!(r, Reaction::ToggleFocus));
    assert!(!s.is_pressed());

    s.is_focused = false;
    let r = p.on_event(&mut s, PointerEvent::Released { inside: false, in_input: false, row: 0, column: 0 });
    assert!(matches!(r, Reaction::Nothing));
}

#[test]
fn release_without_press_does_nothing() {
    let p = picker();
    let mut s = State::new(2024, 3, 15).unwrap();
    p.on_event(&mut s, PointerEvent::Pressed { inside: false });
    let r = p.on_event(&mut s, PointerEvent::Released { inside: true, in_input: false, row: 3, column: 3 });
    assert!(matches!(r, Reaction::Nothing));
    assert_eq!(date(&s), (2024, 3, 15));
}

#[test]
fn header_row_and_other_events_do_nothing() {
    let p = picker();
    let mut s = State::new(2024, 3, 15).unwrap();
    let r = click(&p, &mut s, false, 1, 3);
    assert!(matches!(r, Reaction::Nothing));
    let r = click(&p, &mut s, false, 8, 4);
    assert!(matches!(r, Reaction::Nothing));
    let r = p.on_event(&mut s, PointerEvent::Other);
    assert!(matches!(r, Reaction::Nothing));
    assert_eq!(date(&s), (2024, 3, 15));
}

#[test]
fn no_focus_message_without_one() {
    let p: DatePicker<&'static str> = DatePicker::new(320, "", "");
    let mut s = State::new(2024, 3, 15).unwrap();
    let r = click(&p, &mut s, true, 0, 0);
    assert!(matches!(r, Reaction::Nothing));
}

#[test]
fn edge_of_the_date_range_stays() {
    let p = picker();
    let mut s = State::new(262142, 12, 31).unwrap();
    click(&p, &mut s, false, 8, 7);
    assert_eq!(date(&s), (262142, 12, 31));
    let mut s = State::new(-262143, 1, 1).unwrap();
    click(&p, &mut s, false, 8, 1);
    assert_eq!(date(&s), (-262143, 1, 1));
}

#[test]
fn invalid_dates_are_refused() {
    assert!(State::new(2023, 2, 29).is_none());
    assert!(State::new(2024, 2, 29).is_some());
    assert!(State::new(2024, 13, 1).is_none());
    assert!(State::new(2024, 4, 31).is_none());
    assert!(State::new(2024, 4, 0).is_none());
    assert!(State::new(262143, 1, 1).is_none());
}

#[test]
fn a_new_state_is_unpressed_and_unfocused() {
    let s = State::new(2024, 2, 29).unwrap();
    assert!(!s.is_focused);
    assert!(!s.is_pressed());
    assert_eq!(date(&s), (2024, 2, 29));
}

#[test]
fn press_outside_keeps_the_state() {
    let p = picker();
    let mut s = State::new(2024, 3, 15).unwrap();
    p.on_event(&mut s, PointerEvent::Pressed { inside: true });
    assert!(s.is_pressed());
    let r = p.on_event(&mut s, PointerEvent::Pressed { inside: false });
    assert!(matches!(r, Reaction::Nothing));
    assert!(s.is_pressed());
    let r = p.on_event(&mut s, PointerEvent::Released { inside: true, in_input: true, row: 0, column: 1 });
    assert!(matches!(r, Reaction::ToggleFocus));
}

#[test]
fn formatted_dates() {
    let p = picker();
    let cases = [
        (2024, 3, 1, "2024-03-01"),
        (1, 1, 1, "0001-01-01"),
        (999, 12, 31, "0999-12-31"),
        (9999, 12, 31, "9999-12-31"),
        (12345, 6, 7, "+12345-06-07"),
        (-5, 6, 7, "-0005-06-07"),
    ];
    for (y, m, d, text) in cases {
        let s = State::new(y, m, d).unwrap();
        assert_eq!(p.format_date(&s), text);
    }
}

#[test]
fn formatted_dates_read_back() {
    let p = picker();
    for (y, m, d) in [(1, 1, 1), (2024, 2, 29), (9999, 12, 31), (1970, 7, 4), (42, 10, 9)] {
        let s = State::new(y, m, d).unwrap();
        let text = p.format_date(&s);
        let parts: Vec<&str> = text.split('-').collect();
        assert_eq!(parts.len(), 3);
        let back = (
            parts[0].parse::<i32>().unwrap(),
            parts[1].parse::<u32>().unwrap(),
            parts[2].parse::<u32>().unwrap(),
        );
        assert_eq!(back, (y, m, d));
    }
}

#[test]
fn builders_and_layout() {
    let p = picker();
    assert_eq!(p.w, 320);
    assert_eq!(p.h, 320);
    assert_eq!(p.placeholder, "Choose a date...");
    assert_eq!(p.padding, Some(10));
    assert_eq!(p.size, Some(30));
    assert_eq!(p.on_focus, Some("focus"));
    assert_eq!(p.input_height(), 50);
    let plain: DatePicker<&'static str> = DatePicker::new(100, "", "x");
    assert_eq!(plain.input_height(), 40);
    let mut s = State::new(2024, 3, 15).unwrap();
    let closed = p.layout_key(&s);
    assert_eq!(closed, LayoutKey { w: 320, h: 320, padding: Some(10), size: Some(30), is_focused: false });
    s.is_focused = true;
    assert_ne!(p.layout_key(&s), closed);
}

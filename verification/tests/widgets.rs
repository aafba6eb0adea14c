use form_builder::field::{Field, SubmitOutcome};
use form_builder::input::{
    classify_byte, render_multiselect, render_select, Key, MultiselectWidget, SelectWidget,
};
use form_builder::multiselect_field::MultiselectField;
use form_builder::validation::Predicate;
use form_builder::value::{Value, ValueType};
use form_builder::Validator;

#[test]
fn test_classify_byte() {
    assert!(matches!(classify_byte(65), Key::Up));
    assert!(matches!(classify_byte(66), Key::Down));
    assert!(matches!(classify_byte(10), Key::Enter));
    assert!(matches!(classify_byte(32), Key::Space));
    assert!(matches!(classify_byte(97), Key::Other));
    assert!(matches!(classify_byte(0), Key::Other));
}

#[test]
fn test_select_widget_cursor_clamps() {
    let mut w = SelectWidget::new(3);
    assert_eq!(w.step(Key::Up), None);
    assert_eq!(w.cursor, 0);
    assert_eq!(w.step(Key::Down), None);
    assert_eq!(w.step(Key::Down), None);
    assert_eq!(w.step(Key::Down), None);
    assert_eq!(w.cursor, 2);
    assert_eq!(w.step(Key::Other), None);
    assert_eq!(w.step(Key::Enter), Some(2));
}

#[test]
fn test_select_widget_commits_from_options() {
    // The committed index always lies inside the option list, wherever the
    // cursor was driven.
    let mut w = SelectWidget::new(2);
    for _ in 0..5 {
        assert_eq!(w.step(Key::Down), None);
    }
    let committed = w.step(Key::Enter).unwrap();
    assert!(committed < 2);
}

#[test]
fn test_multiselect_enter_on_empty_keeps_browsing() {
    let mut w = MultiselectWidget::new(3, None);
    let before = (w.cursor, w.toggles.clone());
    assert_eq!(w.step(Key::Enter), None);
    assert_eq!((w.cursor, w.toggles.clone()), before);
    // A toggled option lets enter commit.
    assert_eq!(w.step(Key::Space), None);
    assert_eq!(w.step(Key::Enter), Some(vec![0]));
}

#[test]
fn test_multiselect_limit_ignores_extra_toggles() {
    let mut w = MultiselectWidget::new(3, Some(2));
    assert_eq!(w.step(Key::Space), None);
    assert_eq!(w.step(Key::Down), None);
    assert_eq!(w.step(Key::Space), None);
    assert_eq!(w.step(Key::Down), None);
    // The third toggle exceeds the limit and is silently ignored.
    assert_eq!(w.step(Key::Space), None);
    assert_eq!(w.toggles, vec![true, true, false]);
    assert_eq!(w.step(Key::Enter), Some(vec![0, 1]));
}

#[test]
fn test_multiselect_toggle_off_frees_room() {
    let mut w = MultiselectWidget::new(2, Some(1));
    assert_eq!(w.step(Key::Space), None);
    assert_eq!(w.step(Key::Space), None);
    assert_eq!(w.toggles, vec![false, false]);
    assert_eq!(w.step(Key::Down), None);
    assert_eq!(w.step(Key::Space), None);
    assert_eq!(w.step(Key::Enter), Some(vec![1]));
}

#[test]
fn test_render_select_frame() {
    let options = vec![
        (Value::Text("a".to_string()), "Alpha".to_string()),
        (Value::Text("b".to_string()), "Beta".to_string()),
    ];
    let frame = render_select("Pick one", &options, 0);
    assert_eq!(frame, "Pick one:\n> Alpha\n  Beta\n");
    let frame = render_select("Pick one", &options, 1);
    assert_eq!(frame, "Pick one:\n  Alpha\n> Beta\n");
}

#[test]
fn test_render_multiselect_frame() {
    let options = vec![
        (Value::Text("a".to_string()), "Alpha".to_string()),
        (Value::Text("b".to_string()), "Beta".to_string()),
    ];
    let frame = render_multiselect("Pick some", &options, &vec![true, false], 1);
    assert_eq!(
        frame,
        "Pick some:\nUse Space to select/deselect, Enter to confirm\n  [*] Alpha\n> [ ] Beta\n"
    );
}

#[test]
fn test_submit_line_outcomes() {
    let mut f = Field::new(
        "Enter name:",
        Some(Validator::new(vec![(
            Predicate::Name,
            Some("Name cannot contain numbers".to_string()),
        )])),
        ValueType::Text,
        false,
    );
    match f.submit_line("John123") {
        SubmitOutcome::Invalid(m) => assert_eq!(m, "Name cannot contain numbers"),
        _ => panic!("digits must be rejected by the validator"),
    }
    assert!(matches!(f.submit_line("John"), SubmitOutcome::Accepted));
    assert_eq!(f.get_value(), Ok(Value::Text("John".to_string())));
}

#[test]
fn test_submit_line_unparsable() {
    let mut f = Field::new("Enter age:", None, ValueType::Int, false);
    assert!(matches!(f.submit_line("abc"), SubmitOutcome::Unparsable));
    assert!(f.get_value().is_err());
    assert!(matches!(f.submit_line("30"), SubmitOutcome::Accepted));
    assert_eq!(f.get_value(), Ok(Value::Int(30)));
}

#[test]
fn test_value_types() {
    assert_eq!(Value::Int(3).get_type(), ValueType::Int);
    assert_eq!(Value::Text("a".to_string()).get_type(), ValueType::Text);
    assert_eq!(Value::Boolean(true).get_type(), ValueType::Boolean);
    assert_eq!(Value::Character('c').get_type(), ValueType::Character);
}

#[test]
fn test_display_values() {
    assert_eq!(Value::Int(-42).display(), "-42");
    assert_eq!(Value::Int(0).display(), "0");
    assert_eq!(Value::Int(i64::MIN).display(), "-9223372036854775808");
    assert_eq!(Value::Boolean(true).display(), "true");
    assert_eq!(Value::Boolean(false).display(), "false");
    assert_eq!(Value::Character('x').display(), "x");
    assert_eq!(Value::Text("hi".to_string()).display(), "hi");
}

#[test]
fn test_display_value_of_fields() {
    let mut f = Field::new("w", None, ValueType::Int, true);
    assert!(f.get_display_value().is_err());
    assert!(matches!(f.submit_line(""), SubmitOutcome::Accepted));
    assert_eq!(f.get_display_value(), Ok("None".to_string()));

    let mut mf = MultiselectField::new(
        "Pick",
        ValueType::Text,
        vec![
            (Value::Text("a".to_string()), "A".to_string()),
            (Value::Text("b".to_string()), "B".to_string()),
        ],
        None,
    );
    assert!(mf.get_display_value().is_err());
    mf.commit(vec![0, 1]);
    assert_eq!(mf.get_display_value(), Ok("[a, b]".to_string()));
}

use std::io::{BufRead, Cursor};
use form_builder::form::FormError;
use form_builder::input::{Event, Key};
use form_builder::validation::Predicate;
use form_builder::value::{Value, ValueType};
use form_builder::{FormBuilder, Validator};

fn setup_name_validator() -> Validator {
    Validator::new(vec![
        (Predicate::Name, Some("Invalid name".to_string())),
        (Predicate::NotEmpty, Some("Input cannot be empty".to_string())),
    ])
}

fn setup_email_validator() -> Validator {
    Validator::new(vec![
        (Predicate::Email, Some("Invalid email".to_string())),
        (Predicate::NotEmpty, Some("Input cannot be empty".to_string())),
    ])
}

fn read_input(
    _prompt: &str,
    validator: Option<&Validator>,
    input: &str,
) -> Result<String, String> {
    let mut cursor = Cursor::new(input);
    let mut buffer = String::new();
    cursor.read_line(&mut buffer).unwrap();
    let trimmed_input = buffer.trim();
    if let Some(validator) = validator {
        validator.validate(trimmed_input)?;
    }
    Ok(trimmed_input.to_string())
}

#[test]
fn test_read_input_valid_name() {
    let validator = setup_name_validator();
    let input = "John\n";
    let result = read_input("Enter name:", Some(&validator), input);
    assert_eq!(result, Ok("John".to_string()));
}

#[test]
fn test_read_input_invalid_name() {
    let validator = setup_name_validator();
    let input = "John123\n";
    let result = read_input("Enter name:", Some(&validator), input);
    assert!(result.is_err());
}

#[test]
fn test_read_input_valid_email() {
    let validator = setup_email_validator();
    let input = "test@example.com\n";
    let result = read_input("Enter email:", Some(&validator), input);
    assert_eq!(result, Ok("test@example.com".to_string()));
}

#[test]
fn test_read_input_invalid_email() {
    let validator = setup_email_validator();
    let input = "test@.com\n";
    let result = read_input("Enter email:", Some(&validator), input);
    assert!(result.is_err());
}

#[test]
fn test_read_input_not_empty() {
    let validator = setup_name_validator();
    let input = "non-empty\n";
    let result = read_input("Enter input:", Some(&validator), input);
    assert_eq!(result, Ok("non-empty".to_string()));
}

#[test]
fn test_read_input_empty() {
    let validator = setup_name_validator();
    let input = "\n";
    let result = read_input("Enter input:", Some(&validator), input);
    assert!(result.is_err());
}

#[test]
fn test_add_field() {
    let form_builder = FormBuilder::new()
        .add_field("name", "Enter your name:", None, ValueType::Text)
        .add_field("email", "Enter your email:", None, ValueType::Text);
    let form = form_builder.build();
    assert_eq!(form.fields.len(), 2);
}

#[test]
fn test_add_select() {
    let form_builder = FormBuilder::new().add_select(
        "gender",
        "Select your gender:",
        ValueType::Text,
        vec![
            (Value::Text("M".to_string()), "Male".to_string()),
            (Value::Text("F".to_string()), "Female".to_string()),
            (Value::Text("O".to_string()), "Other".to_string()),
        ],
    );
    let form = form_builder.build();
    assert_eq!(form.fields.len(), 1);
}

#[test]
fn test_add_multiselect() {
    let form_builder = FormBuilder::new().add_multiselect(
        "hobbies",
        "Select your hobbies:",
        ValueType::Text,
        vec![
            (Value::Text("reading".to_string()), "Reading".to_string()),
            (Value::Text("sports".to_string()), "Sports".to_string()),
            (Value::Text("music".to_string()), "Music".to_string()),
        ],
        Some(2),
    );
    let form = form_builder.build();
    assert_eq!(form.fields.len(), 1);
}

#[test]
fn test_fill_name_and_age() {
    let mut form = FormBuilder::new()
        .add_field(
            "name",
            "Enter name:",
            Some(Validator::new(vec![
                (Predicate::NotEmpty, Some("Name cannot be empty".to_string())),
                (Predicate::Name, Some("Name cannot contain numbers".to_string())),
            ])),
            ValueType::Text,
        )
        .add_field("age", "Enter age:", None, ValueType::Int)
        .build();
    let events = vec![
        Event::Line("John".to_string()),
        Event::Line("30".to_string()),
    ];
    assert_eq!(form.fill(&events), Ok(()));
    assert_eq!(
        form.get_value("name", ValueType::Text),
        Ok(Value::Text("John".to_string()))
    );
    assert_eq!(form.get_value("age", ValueType::Int), Ok(Value::Int(30)));
}

#[test]
fn test_fill_reprompts_on_invalid_name() {
    let mut form = FormBuilder::new()
        .add_field(
            "name",
            "Enter name:",
            Some(Validator::new(vec![
                (Predicate::NotEmpty, Some("Name cannot be empty".to_string())),
                (Predicate::Name, Some("Name cannot contain numbers".to_string())),
            ])),
            ValueType::Text,
        )
        .build();
    let events = vec![
        Event::Line("John123".to_string()),
        Event::Line("John".to_string()),
    ];
    assert_eq!(form.fill(&events), Ok(()));
    assert_eq!(
        form.get_value("name", ValueType::Text),
        Ok(Value::Text("John".to_string()))
    );
}

#[test]
fn test_fill_multiselect_respects_limit() {
    let mut form = FormBuilder::new()
        .add_multiselect(
            "letters",
            "Pick letters:",
            ValueType::Text,
            vec![
                (Value::Text("a".to_string()), "A".to_string()),
                (Value::Text("b".to_string()), "B".to_string()),
                (Value::Text("c".to_string()), "C".to_string()),
            ],
            Some(2),
        )
        .build();
    // Toggle a and b; the toggle on c must be silently ignored by the limit.
    let events = vec![
        Event::Key(Key::Space),
        Event::Key(Key::Down),
        Event::Key(Key::Space),
        Event::Key(Key::Down),
        Event::Key(Key::Space),
        Event::Key(Key::Enter),
    ];
    assert_eq!(form.fill(&events), Ok(()));
    assert_eq!(
        form.get_value_vec("letters", ValueType::Text),
        Ok(vec![
            Value::Text("a".to_string()),
            Value::Text("b".to_string()),
        ])
    );
}

#[test]
fn test_fill_select_commits_cursor() {
    let mut form = FormBuilder::new()
        .add_select(
            "gender",
            "Select your gender:",
            ValueType::Text,
            vec![
                (Value::Text("M".to_string()), "Male".to_string()),
                (Value::Text("F".to_string()), "Female".to_string()),
                (Value::Text("O".to_string()), "Other".to_string()),
            ],
        )
        .build();
    // Down, down, up: the cursor ends on the second option.
    let events = vec![
        Event::Key(Key::Down),
        Event::Key(Key::Down),
        Event::Key(Key::Up),
        Event::Key(Key::Enter),
    ];
    assert_eq!(form.fill(&events), Ok(()));
    assert_eq!(
        form.get_value("gender", ValueType::Text),
        Ok(Value::Text("F".to_string()))
    );
}

#[test]
fn test_fill_trims_input() {
    let mut form = FormBuilder::new()
        .add_field("name", "Enter name:", None, ValueType::Text)
        .build();
    let events = vec![Event::Line("  John \t".to_string())];
    assert_eq!(form.fill(&events), Ok(()));
    assert_eq!(
        form.get_value("name", ValueType::Text),
        Ok(Value::Text("John".to_string()))
    );
}

#[test]
fn test_fill_parses_typed_fields() {
    let mut form = FormBuilder::new()
        .add_field("flag", "Student (true/false):", None, ValueType::Boolean)
        .add_field("initial", "Enter your initial:", None, ValueType::Character)
        .build();
    let events = vec![
        Event::Line("nonsense".to_string()),
        Event::Line("true".to_string()),
        Event::Line("xy".to_string()),
        Event::Line("x".to_string()),
    ];
    assert_eq!(form.fill(&events), Ok(()));
    assert_eq!(
        form.get_value("flag", ValueType::Boolean),
        Ok(Value::Boolean(true))
    );
    assert_eq!(
        form.get_value("initial", ValueType::Character),
        Ok(Value::Character('x'))
    );
}

#[test]
fn test_optional_empty_yields_default() {
    let mut form = FormBuilder::new()
        .add_optional_field("width", "Enter width (optional):", None, ValueType::Int)
        .build();
    let events = vec![Event::Line("".to_string())];
    assert_eq!(form.fill(&events), Ok(()));
    assert_eq!(form.get_value("width", ValueType::Int), Ok(Value::Int(0)));
}

#[test]
fn test_optional_present_value_kept() {
    let mut form = FormBuilder::new()
        .add_optional_field("width", "Enter width (optional):", None, ValueType::Int)
        .build();
    let events = vec![Event::Line("17".to_string())];
    assert_eq!(form.fill(&events), Ok(()));
    assert_eq!(form.get_value("width", ValueType::Int), Ok(Value::Int(17)));
}

#[test]
fn test_get_value_type_checked() {
    let mut form = FormBuilder::new()
        .add_field("name", "Enter name:", None, ValueType::Text)
        .build();
    let events = vec![Event::Line("John".to_string())];
    assert_eq!(form.fill(&events), Ok(()));
    // The exact stored type succeeds; any other type is a mismatch.
    assert!(form.get_value("name", ValueType::Text).is_ok());
    assert_eq!(
        form.get_value("name", ValueType::Int),
        Err(FormError::WrongType)
    );
    assert_eq!(
        form.get_value("name", ValueType::Boolean),
        Err(FormError::WrongType)
    );
}

#[test]
fn test_get_value_errors() {
    let form = FormBuilder::new()
        .add_field("name", "Enter name:", None, ValueType::Text)
        .build();
    assert_eq!(
        form.get_value("missing", ValueType::Text),
        Err(FormError::NotFound)
    );
    assert_eq!(
        form.get_value("name", ValueType::Text),
        Err(FormError::NoValue)
    );
    assert_eq!(
        form.get_value_vec("missing", ValueType::Text),
        Err(FormError::NotFound)
    );
}

#[test]
fn test_fill_runs_out_of_events() {
    let mut form = FormBuilder::new()
        .add_field("name", "Enter name:", None, ValueType::Text)
        .build();
    let events: Vec<Event> = Vec::new();
    assert_eq!(form.fill(&events), Err(FormError::EndOfInput));
}

#[test]
fn test_fill_select_without_options() {
    let mut form = FormBuilder::new()
        .add_select("empty", "Pick one:", ValueType::Text, Vec::new())
        .build();
    let events = vec![Event::Key(Key::Enter)];
    assert_eq!(form.fill(&events), Err(FormError::NoOptions));
}

#[test]
fn test_fill_wrong_event_kind() {
    let mut form = FormBuilder::new()
        .add_field("name", "Enter name:", None, ValueType::Text)
        .build();
    let events = vec![Event::Key(Key::Enter)];
    assert_eq!(form.fill(&events), Err(FormError::EndOfInput));
}

#[test]
fn test_get_value_vec_wraps_single_values() {
    let mut form = FormBuilder::new()
        .add_field("age", "Enter age:", None, ValueType::Int)
        .build();
    let events = vec![Event::Line("30".to_string())];
    assert_eq!(form.fill(&events), Ok(()));
    assert_eq!(
        form.get_value_vec("age", ValueType::Int),
        Ok(vec![Value::Int(30)])
    );
}

#[test]
fn test_first_matching_name_wins() {
    let mut form = FormBuilder::new()
        .add_field("x", "First:", None, ValueType::Int)
        .add_field("x", "Second:", None, ValueType::Int)
        .build();
    let events = vec![
        Event::Line("1".to_string()),
        Event::Line("2".to_string()),
    ];
    assert_eq!(form.fill(&events), Ok(()));
    assert_eq!(form.get_value("x", ValueType::Int), Ok(Value::Int(1)));
}

#[test]
fn test_error_messages() {
    assert_eq!(FormError::NotFound.message(), "field not found");
    assert_eq!(FormError::WrongType.message(), "field has incorrect type");
    assert_eq!(FormError::NoValue.message(), "field has no value");
}

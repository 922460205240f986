use soundboard::devices::{is_key_down, last_device_named, select_device, Selection, UserInput};

fn names(list: &[&str]) -> Vec<String> {
    list.iter().map(|s| s.to_string()).collect()
}

#[test]
fn key_down_is_high_bit() {
    assert!(is_key_down(i16::MIN));
    assert!(is_key_down(-32767));
    assert!(!is_key_down(1));
    assert!(!is_key_down(0));
    assert!(!is_key_down(i16::MAX));
}

#[test]
fn last_named_device_wins() {
    let n = names(&["A", "Line (2- MG-XU)", "B", "Line (2- MG-XU)"]);
    assert_eq!(last_device_named(&n, &"Line (2- MG-XU)".to_string()), 3);
    assert_eq!(last_device_named(&n, &"C".to_string()), 0);
    assert_eq!(last_device_named(&names(&[]), &"C".to_string()), 0);
}

#[test]
fn select_by_name_takes_first() {
    let n = names(&["A", "B", "B"]);
    assert!(matches!(select_device(&n, &UserInput::UserInputName, &"B".to_string(), 0), Selection::ByName(1)));
    assert!(matches!(select_device(&n, &UserInput::UserInputName, &"Z".to_string(), 0), Selection::NotFound));
}

#[test]
fn select_by_id_and_default() {
    let n = names(&["A", "B"]);
    assert!(matches!(select_device(&n, &UserInput::UserInputId, &String::new(), 1), Selection::ById(1)));
    assert!(matches!(select_device(&n, &UserInput::UserInputId, &String::new(), 2), Selection::NotFound));
    assert!(matches!(select_device(&n, &UserInput::NoUserInput, &String::new(), 0), Selection::SystemDefault));
    assert!(matches!(select_device(&names(&[]), &UserInput::NoUserInput, &String::new(), 0), Selection::NotFound));
}
